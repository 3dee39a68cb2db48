//! CODEOWNERS files: each significant line a pattern and its owners,
//! compiled to a matcher program; lines whose pattern cannot be compiled
//! are skipped with a diagnostic.

use vstd::prelude::*;
use crate::fs::containment::views;
use crate::github::codeowners::{compile_pattern, op_views, pattern_program, CodeownersOp, CodeownersPatternError, OpView, StructuredParseOptions};
use crate::github::yaml::{
    over_budget, raw_line, raw_lines, raw_span, GithubDiagnostic, GithubDiagnosticKind,
    GithubParseStatus, ParseFailure, StructuredBudgetKind,
};
use crate::markdown::context::{char_width, lemma_encode_char_len, lemma_encode_concat};
use crate::markdown::diagnostics::{byte_len, line_count, SourceSpan};
use crate::text::{char_is_whitespace, is_whitespace, string_of, trim, trimmed};

verus! {

/// The whitespace-separated words of `s`.
pub open spec fn words_of(s: Seq<char>) -> Seq<Seq<char>>
    decreases s.len(),
{
    if s.len() == 0 {
        Seq::empty()
    } else {
        let prev = words_of(s.drop_last());
        if is_whitespace(s.last()) {
            prev
        } else if s.len() >= 2 && !is_whitespace(s[s.len() - 2]) {
            prev.update(prev.len() - 1, prev.last().push(s.last()))
        } else {
            prev.push(seq![s.last()])
        }
    }
}

proof fn lemma_words_nonempty(s: Seq<char>)
    requires
        s.len() > 0,
        !is_whitespace(s.last()),
    ensures
        words_of(s).len() > 0,
        words_of(s).last().len() > 0,
    decreases s.len(),
{
    if s.len() >= 2 && !is_whitespace(s[s.len() - 2]) {
        assert(s.drop_last().last() == s[s.len() - 2]);
        lemma_words_nonempty(s.drop_last());
    }
}

/// `str::split_whitespace`: `words_of(s)`.
fn split_words(s: &[char]) -> (r: Vec<Vec<char>>)
    ensures
        views(r@) == words_of(s@),
{
    let mut out: Vec<Vec<char>> = Vec::new();
    let mut cur: Vec<char> = Vec::new();
    let mut i: usize = 0;
    assert(s@.take(0) =~= Seq::<char>::empty());
    while i < s.len()
        invariant
            i <= s@.len(),
            cur@.len() > 0 <==> (i > 0 && !is_whitespace(s@[i - 1])),
            cur@.len() > 0 ==> words_of(s@.take(i as int)) == views(out@).push(cur@),
            cur@.len() == 0 ==> words_of(s@.take(i as int)) == views(out@),
        decreases s.len() - i,
    {
        let c = s[i];
        assert(s@.take(i + 1).drop_last() =~= s@.take(i as int));
        assert(s@.take(i + 1).last() == c);
        if char_is_whitespace(c) {
            if cur.len() > 0 {
                let ghost before = views(out@);
                let mut word: Vec<char> = Vec::new();
                std::mem::swap(&mut word, &mut cur);
                out.push(word);
                assert(views(out@) =~= before.push(word@));
            }
        } else {
            if cur.len() > 0 {
                assert(s@.take(i + 1)[i - 1] == s@[i - 1]);
                proof { lemma_words_nonempty(s@.take(i as int)); }
                cur.push(c);
            } else {
                cur.push(c);
                assert(cur@ =~= seq![c]);
            }
        }
        i = i + 1;
    }
    assert(s@.take(s@.len() as int) =~= s@);
    if cur.len() > 0 {
        let ghost before = views(out@);
        out.push(cur);
        assert(views(out@) =~= before.push(cur@));
    }
    out
}


/// Whether `s` takes at most `max` bytes in UTF-8.
pub(crate) fn bytes_within(s: &[char], max: usize) -> (r: bool)
    ensures
        r == (byte_len(s@) <= max),
{
    let mut total: usize = 0;
    let mut i: usize = 0;
    while i < s.len()
        invariant
            i <= s@.len(),
            total == byte_len(s@.take(i as int)),
            total <= max,
        decreases s.len() - i,
    {
        proof {
            assert(s@.take(i + 1) =~= s@.take(i as int) + seq![s@[i as int]]);
            lemma_encode_concat(s@.take(i as int), seq![s@[i as int]]);
            lemma_encode_char_len(s@[i as int]);
            assert(s@ =~= s@.take(i + 1) + s@.skip(i + 1));
            lemma_encode_concat(s@.take(i + 1), s@.skip(i + 1));
        }
        let w = char_width(s[i]);
        if w > max - total {
            return false;
        }
        total = total + w;
        i = i + 1;
    }
    assert(s@.take(s@.len() as int) =~= s@);
    true
}

/// A compiled CODEOWNERS line.
#[derive(Debug, Clone, PartialEq, Eq)]
pub struct CodeownerEntry {
    pub pattern: String,
    pub owners: Vec<String>,
    pub span: SourceSpan,
    pub program: Vec<CodeownersOp>,
}

/// A line whose pattern could not be compiled.
#[derive(Debug, Clone, PartialEq, Eq)]
pub struct CodeownersSkippedLine {
    pub pattern: String,
    pub span: SourceSpan,
    pub diagnostic: GithubDiagnosticKind,
}

#[derive(Debug, Clone, PartialEq, Eq)]
pub struct Codeowners {
    pub entries: Vec<CodeownerEntry>,
    pub skipped: Vec<CodeownersSkippedLine>,
}

pub open spec fn entry_view(e: CodeownerEntry) -> (Seq<char>, Seq<Seq<char>>, SourceSpan, Seq<OpView>) {
    (e.pattern@, crate::profiles::scoring::string_views(e.owners@), e.span, op_views(e.program@))
}

pub open spec fn skip_view(k: CodeownersSkippedLine) -> (Seq<char>, SourceSpan, GithubDiagnosticKind) {
    (k.pattern@, k.span, k.diagnostic)
}

/// The diagnostic a pattern error gives.
pub open spec fn pattern_diagnostic(e: CodeownersPatternError) -> GithubDiagnosticKind {
    match e {
        CodeownersPatternError::UnsupportedPattern => GithubDiagnosticKind::UnsupportedCodeownersPattern,
        CodeownersPatternError::NodeBudgetExceeded => GithubDiagnosticKind::BudgetExceeded(StructuredBudgetKind::Nodes),
    }
}

/// What the lines so far gave: entries, skipped lines, diagnostics.
pub struct OwnersState {
    pub entries: Seq<(Seq<char>, Seq<Seq<char>>, SourceSpan, Seq<OpView>)>,
    pub skipped: Seq<(Seq<char>, SourceSpan, GithubDiagnosticKind)>,
    pub diags: Seq<GithubDiagnostic>,
}

pub open spec fn malformed(kind: GithubDiagnosticKind, span: SourceSpan) -> ParseFailure {
    ParseFailure { status: GithubParseStatus::Malformed, diagnostic: GithubDiagnostic { kind, span } }
}

/// Some word of `parts` is over the scalar byte budget.
pub open spec fn word_over(parts: Seq<Seq<char>>, max: usize) -> bool {
    exists|i: int| 0 <= i < parts.len() && byte_len(#[trigger] parts[i]) > max
}

/// Reading the lines of `t` from `k` on after `st`.
pub open spec fn owners_from(t: Seq<char>, k: int, st: OwnersState, options: StructuredParseOptions) -> Result<OwnersState, ParseFailure>
    decreases line_count(t) - k,
{
    if k < 0 || k >= line_count(t) {
        if st.diags.len() > options.max_diagnostics {
            Err(over_budget(StructuredBudgetKind::Diagnostics, SourceSpan { line: 1, column: 1, byte_start: 0, byte_end: 0 }))
        } else {
            Ok(st)
        }
    } else {
        let span = raw_span(t, k);
        let content = trim(raw_line(t, k));
        if content.len() == 0 || content[0] == '#' {
            owners_from(t, k + 1, st, options)
        } else {
            let parts = words_of(content);
            if parts.len() < 2 {
                Err(malformed(GithubDiagnosticKind::MissingCodeowner, span))
            } else if word_over(parts, options.max_scalar_bytes) {
                Err(over_budget(StructuredBudgetKind::ScalarBytes, span))
            } else {
                match pattern_program(parts[0], (parts.len() - 1) as nat, options.max_nodes) {
                    Err(e) => {
                        let diags = st.diags.push(GithubDiagnostic { kind: pattern_diagnostic(e), span });
                        if diags.len() > options.max_diagnostics {
                            Err(over_budget(StructuredBudgetKind::Diagnostics, span))
                        } else {
                            owners_from(t, k + 1, OwnersState { entries: st.entries, skipped: st.skipped.push((parts[0], span, pattern_diagnostic(e))), diags }, options)
                        }
                    },
                    Ok(ops) => {
                        let entries = st.entries.push((parts[0], parts.skip(1), span, ops));
                        if entries.len() > options.max_nodes {
                            Err(over_budget(StructuredBudgetKind::Nodes, span))
                        } else {
                            owners_from(t, k + 1, OwnersState { entries, skipped: st.skipped, diags: st.diags }, options)
                        }
                    },
                }
            }
        }
    }
}

/// What a CODEOWNERS text gives.
pub open spec fn codeowners_spec(t: Seq<char>, options: StructuredParseOptions) -> Result<OwnersState, ParseFailure> {
    owners_from(t, 0, OwnersState { entries: Seq::empty(), skipped: Seq::empty(), diags: Seq::empty() }, options)
}

/// Whether every word of `parts` takes at most `max` bytes.
fn words_within(parts: &Vec<Vec<char>>, max: usize) -> (r: bool)
    ensures
        r == !word_over(views(parts@), max),
{
    let mut w: usize = 0;
    while w < parts.len()
        invariant
            w <= parts@.len(),
            forall|i: int| 0 <= i < w ==> byte_len(#[trigger] views(parts@)[i]) <= max,
        decreases parts.len() - w,
    {
        assert(views(parts@)[w as int] == parts@[w as int]@);
        if !bytes_within(parts[w].as_slice(), max) {
            assert(byte_len(views(parts@)[w as int]) > max);
            return false;
        }
        w = w + 1;
    }
    true
}

fn copy_words(parts: &Vec<Vec<char>>, from: usize) -> (r: Vec<String>)
    requires
        from <= parts@.len(),
    ensures
        crate::profiles::scoring::string_views(r@) == views(parts@).skip(from as int),
{
    let mut out: Vec<String> = Vec::new();
    let mut i = from;
    while i < parts.len()
        invariant
            from <= i <= parts@.len(),
            crate::profiles::scoring::string_views(out@) == views(parts@).subrange(from as int, i as int),
        decreases parts.len() - i,
    {
        let ghost before = crate::profiles::scoring::string_views(out@);
        assert(views(parts@)[i as int] == parts@[i as int]@);
        out.push(string_of(parts[i].as_slice()));
        assert(crate::profiles::scoring::string_views(out@) =~= before.push(parts@[i as int]@));
        assert(crate::profiles::scoring::string_views(out@) =~= views(parts@).subrange(from as int, i + 1));
        i = i + 1;
    }
    assert(views(parts@).subrange(from as int, i as int) =~= views(parts@).skip(from as int));
    out
}

/// A CODEOWNERS file: `codeowners_spec` of its text, with the
/// diagnostics of the skipped lines.
pub fn parse_codeowners(source: &str, options: &StructuredParseOptions) -> (r: Result<(Codeowners, Vec<GithubDiagnostic>), ParseFailure>)
    requires
        byte_len(source@) < usize::MAX,
    ensures
        match codeowners_spec(source@, *options) {
            Err(f) => r == Err::<(Codeowners, Vec<GithubDiagnostic>), ParseFailure>(f),
            Ok(st) => r matches Ok((c, diags)) && diags@ == st.diags
                && c.entries@.map_values(|e: CodeownerEntry| entry_view(e)) == st.entries
                && c.skipped@.map_values(|k: CodeownersSkippedLine| skip_view(k)) == st.skipped,
        },
{
    let lines = raw_lines(source);
    let ghost t = source@;
    let mut entries: Vec<CodeownerEntry> = Vec::new();
    let mut skipped: Vec<CodeownersSkippedLine> = Vec::new();
    let mut diags: Vec<GithubDiagnostic> = Vec::new();
    let mut k: usize = 0;
    assert(entries@.map_values(|e: CodeownerEntry| entry_view(e)) =~= Seq::<(Seq<char>, Seq<Seq<char>>, SourceSpan, Seq<OpView>)>::empty());
    assert(skipped@.map_values(|k: CodeownersSkippedLine| skip_view(k)) =~= Seq::<(Seq<char>, SourceSpan, GithubDiagnosticKind)>::empty());
    while k < lines.len()
        invariant
            t == source@,
            byte_len(t) < usize::MAX,
            lines@.len() == line_count(t),
            forall|m: int| 0 <= m < lines@.len() ==> (#[trigger] lines@[m]).0@ == raw_line(t, m) && lines@[m].1 == raw_span(t, m),
            k <= lines@.len(),
            entries@.len() <= options.max_nodes,
            diags@.len() <= options.max_diagnostics,
            codeowners_spec(t, *options) == owners_from(t, k as int, OwnersState {
                entries: entries@.map_values(|e: CodeownerEntry| entry_view(e)),
                skipped: skipped@.map_values(|k: CodeownersSkippedLine| skip_view(k)),
                diags: diags@,
            }, *options),
        decreases lines.len() - k,
    {
        let raw = &lines[k].0;
        let span = lines[k].1;
        let content = trimmed(raw.as_slice());
        if content.len() == 0 || content[0] == '#' {
            k = k + 1;
            continue;
        }
        let parts = split_words(content.as_slice());
        if parts.len() < 2 {
            return Err(ParseFailure { status: GithubParseStatus::Malformed, diagnostic: GithubDiagnostic { kind: GithubDiagnosticKind::MissingCodeowner, span } });
        }
        if !words_within(&parts, options.max_scalar_bytes) {
            return Err(ParseFailure { status: GithubParseStatus::BudgetExceeded(StructuredBudgetKind::ScalarBytes), diagnostic: GithubDiagnostic { kind: GithubDiagnosticKind::BudgetExceeded(StructuredBudgetKind::ScalarBytes), span } });
        }
        let pattern = string_of(parts[0].as_slice());
        assert(views(parts@)[0] == parts@[0]@);
        match compile_pattern(pattern.as_str(), parts.len() - 1, options.max_nodes) {
            Err(e) => {
                let kind = match e {
                    CodeownersPatternError::UnsupportedPattern => GithubDiagnosticKind::UnsupportedCodeownersPattern,
                    CodeownersPatternError::NodeBudgetExceeded => GithubDiagnosticKind::BudgetExceeded(StructuredBudgetKind::Nodes),
                };
                diags.push(GithubDiagnostic { kind, span });
                let ghost before = skipped@.map_values(|k: CodeownersSkippedLine| skip_view(k));
                skipped.push(CodeownersSkippedLine { pattern, span, diagnostic: kind });
                assert(skipped@.map_values(|k: CodeownersSkippedLine| skip_view(k)) =~= before.push((parts@[0]@, span, kind)));
                if diags.len() > options.max_diagnostics {
                    return Err(ParseFailure { status: GithubParseStatus::BudgetExceeded(StructuredBudgetKind::Diagnostics), diagnostic: GithubDiagnostic { kind: GithubDiagnosticKind::BudgetExceeded(StructuredBudgetKind::Diagnostics), span } });
                }
            },
            Ok(program) => {
                let ghost before = entries@.map_values(|e: CodeownerEntry| entry_view(e));
                let entry = CodeownerEntry { pattern, owners: copy_words(&parts, 1), span, program };
                entries.push(entry);
                assert(entries@.map_values(|e: CodeownerEntry| entry_view(e)) =~= before.push((views(parts@)[0], views(parts@).skip(1), span, op_views(entries@.last().program@))));
                if entries.len() > options.max_nodes {
                    return Err(ParseFailure { status: GithubParseStatus::BudgetExceeded(StructuredBudgetKind::Nodes), diagnostic: GithubDiagnostic { kind: GithubDiagnosticKind::BudgetExceeded(StructuredBudgetKind::Nodes), span } });
                }
            },
        }
        k = k + 1;
    }
    if diags.len() > options.max_diagnostics {
        return Err(ParseFailure { status: GithubParseStatus::BudgetExceeded(StructuredBudgetKind::Diagnostics), diagnostic: GithubDiagnostic { kind: GithubDiagnosticKind::BudgetExceeded(StructuredBudgetKind::Diagnostics), span: SourceSpan { line: 1, column: 1, byte_start: 0, byte_end: 0 } } });
    }
    Ok((Codeowners { entries, skipped }, diags))
}

} // verus!

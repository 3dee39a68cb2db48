//! The line-oriented YAML subset that GitHub configuration files are read
//! in: each significant line becomes an indentation, a list marker, a key
//! and a scalar; anchors, tabs, odd indentation and lines that are neither
//! keys nor list items are refused, and block scalars are skipped.

use vstd::prelude::*;
use vstd::utf8::encode_utf8;
use crate::fs::containment::split_on;
use crate::github::codeowners::StructuredParseOptions;
use crate::gitlocal::gowork::strip_cr;
use crate::markdown::context::{char_width, lemma_encode_char_len, lemma_encode_concat};
use crate::markdown::diagnostics::{
    byte_len, find_char, find_char_from, lemma_find_char, line_count, line_text, markdown_lines,
    piece_byte_start, SourceSpan,
};
use crate::text::{chars_of, has_prefix, string_of, trim, trimmed};

verus! {

/// The budget a structured parse ran out of.
#[derive(Debug, Clone, Copy, PartialEq, Eq, Structural)]
pub enum StructuredBudgetKind {
    SourceBytes,
    Nodes,
    Depth,
    ScalarBytes,
    Diagnostics,
}

/// How parsing a GitHub configuration document ended.
#[derive(Debug, Clone, Copy, PartialEq, Eq, Structural)]
pub enum GithubParseStatus {
    Parsed,
    ParsedPartial,
    Malformed,
    UnsupportedSyntax,
    InvalidUtf8,
    PermissionDenied,
    BudgetExceeded(StructuredBudgetKind),
}

#[derive(Debug, Clone, Copy, PartialEq, Eq, Structural)]
pub enum GithubDiagnosticKind {
    UnknownField,
    MissingRequiredField,
    MalformedValue,
    UnsupportedSyntax,
    InvalidUtf8,
    PermissionDenied,
    MissingCodeowner,
    UnsupportedCodeownersPattern,
    BudgetExceeded(StructuredBudgetKind),
}

#[derive(Debug, Clone, Copy, PartialEq, Eq, Structural)]
pub struct GithubDiagnostic {
    pub kind: GithubDiagnosticKind,
    pub span: SourceSpan,
}

/// Why a document could not be parsed: its status and the diagnostic.
#[derive(Debug, Clone, Copy, PartialEq, Eq, Structural)]
pub struct ParseFailure {
    pub status: GithubParseStatus,
    pub diagnostic: GithubDiagnostic,
}

pub open spec fn unsupported(span: SourceSpan) -> ParseFailure {
    ParseFailure {
        status: GithubParseStatus::UnsupportedSyntax,
        diagnostic: GithubDiagnostic { kind: GithubDiagnosticKind::UnsupportedSyntax, span },
    }
}

pub open spec fn over_budget(kind: StructuredBudgetKind, span: SourceSpan) -> ParseFailure {
    ParseFailure {
        status: GithubParseStatus::BudgetExceeded(kind),
        diagnostic: GithubDiagnostic { kind: GithubDiagnosticKind::BudgetExceeded(kind), span },
    }
}

/// One significant line of a document.
#[derive(Debug, Clone, PartialEq, Eq)]
pub struct YamlLine {
    pub indent: usize,
    pub is_list: bool,
    pub key: Option<String>,
    pub value: Option<String>,
    pub span: SourceSpan,
}

pub struct YamlLineView {
    pub indent: usize,
    pub is_list: bool,
    pub key: Option<Seq<char>>,
    pub value: Option<Seq<char>>,
    pub span: SourceSpan,
}

pub open spec fn opt_view(o: Option<String>) -> Option<Seq<char>> {
    match o {
        Some(s) => Some(s@),
        None => None,
    }
}

impl View for YamlLine {
    type V = YamlLineView;

    open spec fn view(&self) -> YamlLineView {
        YamlLineView { indent: self.indent, is_list: self.is_list, key: opt_view(self.key), value: opt_view(self.value), span: self.span }
    }
}

pub open spec fn yaml_views(v: Seq<YamlLine>) -> Seq<YamlLineView> {
    v.map_values(|l: YamlLine| l@)
}

/// The number of spaces `s` starts with.
pub open spec fn leading_spaces(s: Seq<char>) -> nat
    decreases s.len(),
{
    if s.len() > 0 && s[0] == ' ' { 1 + leading_spaces(s.drop_first()) } else { 0 }
}

pub open spec fn key_char(c: char) -> bool {
    ('a' <= c && c <= 'z') || ('A' <= c && c <= 'Z') || ('0' <= c && c <= '9') || c == '-' || c == '_' || c == '.'
}

/// A key: ASCII letters, digits, `-`, `_` and `.`, at least one.
pub open spec fn valid_key(k: Seq<char>) -> bool {
    k.len() > 0 && forall|i: int| 0 <= i < k.len() ==> key_char(#[trigger] k[i])
}

/// A scalar without one pair of enclosing double or single quotes.
pub open spec fn unquote(v: Seq<char>) -> Seq<char> {
    if v.len() >= 2 && v[0] == '"' && v.last() == '"' {
        v.subrange(1, v.len() - 1)
    } else if v.len() >= 2 && v[0] == '\'' && v.last() == '\'' {
        v.subrange(1, v.len() - 1)
    } else {
        v
    }
}

/// A trimmed scalar: none when empty; anchors and aliases refused; else
/// unquoted, within the scalar byte budget.
pub open spec fn scalar(v: Seq<char>, options: StructuredParseOptions, span: SourceSpan) -> Result<Option<Seq<char>>, ParseFailure> {
    if v.len() == 0 {
        Ok(None)
    } else if v[0] == '&' || v[0] == '*' {
        Err(unsupported(span))
    } else if byte_len(unquote(v)) > options.max_scalar_bytes {
        Err(over_budget(StructuredBudgetKind::ScalarBytes, span))
    } else {
        Ok(Some(unquote(v)))
    }
}

/// What a line gives.
pub enum TokenView {
    Skip,
    Push(YamlLineView),
    Fail(ParseFailure),
}

/// Reading one line with `block` the indentation of an open block scalar's
/// key: the next block state and what the line gives. Blank and comment
/// lines, and lines inside a block scalar, are skipped.
pub open spec fn token_step(raw: Seq<char>, span: SourceSpan, block: Option<usize>, options: StructuredParseOptions) -> (Option<usize>, TokenView) {
    let first = leading_spaces(raw);
    let content = raw.skip(first as int);
    if content.len() == 0 || content[0] == '#' {
        (block, TokenView::Skip)
    } else if block matches Some(p) && first > p {
        (block, TokenView::Skip)
    } else if content[0] == '\t' || first % 2 != 0 {
        (None, TokenView::Fail(unsupported(span)))
    } else if first / 2 > options.max_depth {
        (None, TokenView::Fail(over_budget(StructuredBudgetKind::Depth, span)))
    } else if content == seq!['-'] {
        (None, TokenView::Fail(unsupported(span)))
    } else {
        let is_list = has_prefix(content, seq!['-', ' ']);
        let rest = if is_list { content.skip(2) } else { content };
        let c = find_char_from(rest, ':', 0);
        if c >= 0 {
            let key = trim(rest.take(c));
            if !valid_key(key) {
                (None, TokenView::Fail(unsupported(span)))
            } else {
                match scalar(trim(rest.skip(c + 1)), options, span) {
                    Err(f) => (None, TokenView::Fail(f)),
                    Ok(v) => (
                        if v matches Some(s) && s.len() > 0 && (s[0] == '|' || s[0] == '>') { Some(first as usize) } else { None },
                        TokenView::Push(YamlLineView { indent: first as usize, is_list, key: Some(key), value: v, span }),
                    ),
                }
            }
        } else if is_list {
            match scalar(trim(rest), options, span) {
                Err(f) => (None, TokenView::Fail(f)),
                Ok(v) => (None, TokenView::Push(YamlLineView { indent: first as usize, is_list, key: None, value: v, span })),
            }
        } else {
            (None, TokenView::Fail(unsupported(span)))
        }
    }
}

/// Line `k` (from 0) without its `\n` and one `\r` before it.
pub open spec fn raw_line(t: Seq<char>, k: int) -> Seq<char> {
    strip_cr(split_on(t, '\n')[k])
}

/// The span of line `k`: its number, column 1, and its bytes without the
/// line ending.
pub open spec fn raw_span(t: Seq<char>, k: int) -> SourceSpan {
    let b = piece_byte_start(split_on(t, '\n'), k);
    SourceSpan { line: (k + 1) as usize, column: 1, byte_start: b as usize, byte_end: (b + byte_len(raw_line(t, k))) as usize }
}

/// Reading the lines of `t` from `k` on, in block state `block`, after
/// `acc`: the lines, or the first failure; more than `max_nodes` lines is
/// over budget.
pub open spec fn tokenize_from(t: Seq<char>, k: int, block: Option<usize>, acc: Seq<YamlLineView>, options: StructuredParseOptions) -> Result<Seq<YamlLineView>, ParseFailure>
    decreases line_count(t) - k,
{
    if k < 0 || k >= line_count(t) {
        Ok(acc)
    } else {
        let (next, token) = token_step(raw_line(t, k), raw_span(t, k), block, options);
        match token {
            TokenView::Skip => tokenize_from(t, k + 1, next, acc, options),
            TokenView::Fail(f) => Err(f),
            TokenView::Push(l) => if acc.len() + 1 > options.max_nodes {
                Err(over_budget(StructuredBudgetKind::Nodes, l.span))
            } else {
                tokenize_from(t, k + 1, next, acc.push(l), options)
            },
        }
    }
}

/// The significant lines of a document, or why it cannot be read.
pub open spec fn tokenize_spec(t: Seq<char>, options: StructuredParseOptions) -> Result<Seq<YamlLineView>, ParseFailure> {
    tokenize_from(t, 0, None, Seq::empty(), options)
}

/// The bytes that `s` takes in UTF-8.
pub fn chars_byte_len(s: &[char]) -> (r: usize)
    requires
        byte_len(s@) <= usize::MAX,
    ensures
        r == byte_len(s@),
{
    let mut total: usize = 0;
    let mut i: usize = 0;
    while i < s.len()
        invariant
            i <= s@.len(),
            total == byte_len(s@.take(i as int)),
            byte_len(s@) <= usize::MAX,
        decreases s.len() - i,
    {
        proof {
            assert(s@.take(i + 1) =~= s@.take(i as int) + seq![s@[i as int]]);
            lemma_encode_concat(s@.take(i as int), seq![s@[i as int]]);
            lemma_encode_char_len(s@[i as int]);
            assert(s@ =~= s@.take(i + 1) + s@.skip(i + 1));
            lemma_encode_concat(s@.take(i + 1), s@.skip(i + 1));
        }
        total = total + char_width(s[i]);
        i = i + 1;
    }
    assert(s@.take(s@.len() as int) =~= s@);
    total
}

proof fn lemma_leading(s: Seq<char>, i: int)
    requires
        0 <= i <= s.len(),
        forall|j: int| 0 <= j < i ==> s[j] == ' ',
    ensures
        leading_spaces(s) == i + leading_spaces(s.skip(i)),
    decreases i,
{
    if i > 0 {
        assert(s.drop_first().skip(i - 1) =~= s.skip(i));
        lemma_leading(s.drop_first(), i - 1);
    } else {
        assert(s.skip(0) =~= s);
    }
}

fn count_leading_spaces(s: &[char]) -> (r: usize)
    ensures
        r == leading_spaces(s@),
        r <= s@.len(),
{
    let mut i: usize = 0;
    while i < s.len() && s[i] == ' '
        invariant
            i <= s@.len(),
            forall|j: int| 0 <= j < i ==> s@[j] == ' ',
        decreases s.len() - i,
    {
        i = i + 1;
    }
    proof {
        lemma_leading(s@, i as int);
    }
    i
}

fn is_key(k: &[char]) -> (r: bool)
    ensures
        r == valid_key(k@),
{
    if k.len() == 0 {
        return false;
    }
    let mut i: usize = 0;
    while i < k.len()
        invariant
            i <= k@.len(),
            forall|j: int| 0 <= j < i ==> key_char(#[trigger] k@[j]),
        decreases k.len() - i,
    {
        let c = k[i];
        if !(('a' <= c && c <= 'z') || ('A' <= c && c <= 'Z') || ('0' <= c && c <= '9') || c == '-' || c == '_' || c == '.') {
            return false;
        }
        i = i + 1;
    }
    true
}

fn unsupported_at(span: SourceSpan) -> (r: ParseFailure)
    ensures
        r == unsupported(span),
{
    ParseFailure { status: GithubParseStatus::UnsupportedSyntax, diagnostic: GithubDiagnostic { kind: GithubDiagnosticKind::UnsupportedSyntax, span } }
}

fn over_budget_at(kind: StructuredBudgetKind, span: SourceSpan) -> (r: ParseFailure)
    ensures
        r == over_budget(kind, span),
{
    ParseFailure { status: GithubParseStatus::BudgetExceeded(kind), diagnostic: GithubDiagnostic { kind: GithubDiagnosticKind::BudgetExceeded(kind), span } }
}

fn read_scalar(v: &[char], options: &StructuredParseOptions, span: SourceSpan) -> (r: Result<Option<Vec<char>>, ParseFailure>)
    requires
        byte_len(v@) <= usize::MAX,
    ensures
        match r {
            Ok(Some(s)) => scalar(v@, *options, span) == Ok::<Option<Seq<char>>, ParseFailure>(Some(s@)),
            Ok(None) => scalar(v@, *options, span) == Ok::<Option<Seq<char>>, ParseFailure>(None),
            Err(f) => scalar(v@, *options, span) == Err::<Option<Seq<char>>, ParseFailure>(f),
        },
{
    if v.len() == 0 {
        return Ok(None);
    }
    if v[0] == '&' || v[0] == '*' {
        return Err(unsupported_at(span));
    }
    let n = v.len();
    let inner = if n >= 2 && ((v[0] == '"' && v[n - 1] == '"') || (v[0] == '\'' && v[n - 1] == '\'')) {
        crate::text::slice_of(v, 1, n - 1)
    } else {
        crate::text::slice_of(v, 0, n)
    };
    assert(v@.subrange(0, n as int) =~= v@);
    assert(inner@ == unquote(v@));
    proof {
        if inner@.len() + 2 == v@.len() {
            assert(v@ =~= v@.take(1) + (inner@ + v@.skip(n - 1)));
            lemma_encode_concat(v@.take(1), inner@ + v@.skip(n - 1));
            lemma_encode_concat(inner@, v@.skip(n - 1));
        }
    }
    let bytes = chars_byte_len(inner.as_slice());
    if bytes > options.max_scalar_bytes {
        return Err(over_budget_at(StructuredBudgetKind::ScalarBytes, span));
    }
    Ok(Some(inner))
}


/// What a line gives, as values the tokenizer keeps.
pub enum Token {
    Skip,
    Push(YamlLine),
    Fail(ParseFailure),
}

pub open spec fn token_view(t: Token) -> TokenView {
    match t {
        Token::Skip => TokenView::Skip,
        Token::Push(l) => TokenView::Push(l@),
        Token::Fail(f) => TokenView::Fail(f),
    }
}

fn opt_string(v: Option<Vec<char>>) -> (r: Option<String>)
    ensures
        opt_view(r) == match v { Some(c) => Some(c@), None => None::<Seq<char>> },
{
    match v {
        Some(c) => Some(string_of(c.as_slice())),
        None => None,
    }
}

/// `token_step` of one line.
fn token_line(raw: &[char], span: SourceSpan, block: Option<usize>, options: &StructuredParseOptions) -> (r: (Option<usize>, Token))
    requires
        byte_len(raw@) <= usize::MAX,
    ensures
        (r.0, token_view(r.1)) == token_step(raw@, span, block, *options),
{
    let first = count_leading_spaces(raw);
    let content = crate::text::slice_of(raw, first, raw.len());
    assert(content@ =~= raw@.skip(first as int));
    proof {
        assert(raw@ =~= raw@.take(first as int) + content@);
        lemma_encode_concat(raw@.take(first as int), content@);
    }
    if content.len() == 0 || content[0] == '#' {
        return (block, Token::Skip);
    }
    match block {
        Some(p) => {
            if first > p {
                return (block, Token::Skip);
            }
        },
        None => {},
    }
    if content[0] == '\t' || first % 2 != 0 {
        return (None, Token::Fail(unsupported_at(span)));
    }
    if first / 2 > options.max_depth {
        return (None, Token::Fail(over_budget_at(StructuredBudgetKind::Depth, span)));
    }
    if content.len() == 1 && content[0] == '-' {
        assert(content@ =~= seq!['-']);
        return (None, Token::Fail(unsupported_at(span)));
    }
    assert(content@ != seq!['-']);
    let is_list = content.len() >= 2 && content[0] == '-' && content[1] == ' ';
    assert(is_list == has_prefix(content@, seq!['-', ' '])) by {
        if content@.len() >= 2 {
            assert(content@.take(2) =~= seq![content@[0], content@[1]]);
        }
    }
    let rest = if is_list { crate::text::slice_of(content.as_slice(), 2, content.len()) } else { crate::text::slice_of(content.as_slice(), 0, content.len()) };
    assert(rest@ == if is_list { content@.skip(2) } else { content@ });
    proof {
        if is_list {
            assert(content@ =~= content@.take(2) + rest@);
            lemma_encode_concat(content@.take(2), rest@);
        }
    }
    proof { lemma_find_char(rest@, ':', 0); }
    match find_char(rest.as_slice(), ':', 0) {
        Some(c) => {
            let head = crate::text::slice_of(rest.as_slice(), 0, c);
            assert(head@ =~= rest@.take(c as int));
            let key = trimmed(head.as_slice());
            if !is_key(key.as_slice()) {
                return (None, Token::Fail(unsupported_at(span)));
            }
            let tail = crate::text::slice_of(rest.as_slice(), c + 1, rest.len());
            assert(tail@ =~= rest@.skip(c + 1));
            let value_text = trimmed(tail.as_slice());
            proof {
                assert(rest@ =~= rest@.take(c + 1) + tail@);
                lemma_encode_concat(rest@.take(c + 1), tail@);
                lemma_trim_bytes(tail@);
            }
            match read_scalar(value_text.as_slice(), options, span) {
                Err(f) => (None, Token::Fail(f)),
                Ok(v) => {
                    let opens = match &v {
                        Some(s) => s.len() > 0 && (s[0] == '|' || s[0] == '>'),
                        None => false,
                    };
                    let next = if opens { Some(first) } else { None };
                    let line = YamlLine { indent: first, is_list, key: Some(string_of(key.as_slice())), value: opt_string(v), span };
                    (next, Token::Push(line))
                },
            }
        },
        None => {
            if !is_list {
                return (None, Token::Fail(unsupported_at(span)));
            }
            let value_text = trimmed(rest.as_slice());
            proof { lemma_trim_bytes(rest@); }
            match read_scalar(value_text.as_slice(), options, span) {
                Err(f) => (None, Token::Fail(f)),
                Ok(v) => (None, Token::Push(YamlLine { indent: first, is_list, key: None, value: opt_string(v), span })),
            }
        },
    }
}

proof fn lemma_bounds_ws(s: Seq<char>)
    ensures
        crate::text::leading_ws(s) <= s.len(),
        crate::text::trailing_ws(s) <= s.len(),
    decreases s.len(),
{
    if s.len() > 0 {
        lemma_bounds_ws(s.drop_first());
        lemma_bounds_ws(s.drop_last());
    }
}

proof fn lemma_sub_bytes(s: Seq<char>, a: int, b: int)
    requires
        0 <= a <= b <= s.len(),
    ensures
        byte_len(s.subrange(a, b)) <= byte_len(s),
{
    assert(s =~= s.take(a) + (s.subrange(a, b) + s.skip(b)));
    lemma_encode_concat(s.take(a), s.subrange(a, b) + s.skip(b));
    lemma_encode_concat(s.subrange(a, b), s.skip(b));
}

proof fn lemma_trim_bytes(s: Seq<char>)
    ensures
        byte_len(trim(s)) <= byte_len(s),
{
    lemma_bounds_ws(s);
    let t = crate::text::trim_start(s);
    lemma_sub_bytes(s, crate::text::leading_ws(s) as int, s.len() as int);
    lemma_bounds_ws(t);
    lemma_sub_bytes(t, 0, t.len() - crate::text::trailing_ws(t));
}


proof fn lemma_last_piece(t: Seq<char>)
    ensures
        split_on(t, '\n').len() >= 1,
        (split_on(t, '\n').last().len() == 0) == (t.len() == 0 || t.last() == '\n'),
{
    crate::fs::containment::lemma_split_nonempty(t, '\n');
    if t.len() > 0 {
        crate::fs::containment::lemma_split_nonempty(t.drop_last(), '\n');
    }
}

/// The significant lines of `source`: `tokenize_spec`.
pub fn tokenize(source: &str, options: &StructuredParseOptions) -> (r: Result<Vec<YamlLine>, ParseFailure>)
    requires
        byte_len(source@) < usize::MAX,
    ensures
        match r {
            Ok(v) => tokenize_spec(source@, *options) == Ok::<Seq<YamlLineView>, ParseFailure>(yaml_views(v@)),
            Err(f) => tokenize_spec(source@, *options) == Err::<Seq<YamlLineView>, ParseFailure>(f),
        },
{
    let lines = markdown_lines(source);
    let chars = chars_of(source);
    let ends_newline = chars.len() > 0 && chars[chars.len() - 1] == '\n';
    let ghost t = source@;
    let ghost pieces = split_on(t, '\n');
    proof { lemma_last_piece(t); }
    let mut out: Vec<YamlLine> = Vec::new();
    let mut block: Option<usize> = None;
    let mut k: usize = 0;
    assert(yaml_views(out@) =~= Seq::<YamlLineView>::empty());
    while k < lines.len()
        invariant
            t == source@,
            pieces == split_on(t, '\n'),
            pieces.len() >= 1,
            (pieces.last().len() == 0) == (t.len() == 0 || t.last() == '\n'),
            ends_newline == (t.len() > 0 && t.last() == '\n'),
            byte_len(t) < usize::MAX,
            lines@.len() == line_count(t),
            forall|m: int| 0 <= m < lines@.len() ==> {
                &&& (#[trigger] lines@[m]).number == m + 1
                &&& lines@[m].byte_start == piece_byte_start(pieces, m)
                &&& lines@[m].text@ == line_text(t, m)
                &&& lines@[m].byte_start + byte_len(lines@[m].text@) <= byte_len(t)
            },
            k <= lines@.len(),
            out@.len() <= options.max_nodes,
            tokenize_spec(t, *options) == tokenize_from(t, k as int, block, yaml_views(out@), *options),
        decreases lines.len() - k,
    {
        let line = &lines[k];
        let text = chars_of(line.text.as_str());
        let is_last_piece = k + 1 == lines.len() && !ends_newline;
        assert(is_last_piece == (k == pieces.len() - 1));
        let raw = if is_last_piece && text.len() > 0 && text[text.len() - 1] == '\r' {
            crate::text::slice_of(text.as_slice(), 0, text.len() - 1)
        } else {
            crate::text::slice_of(text.as_slice(), 0, text.len())
        };
        proof {
            assert(text@.subrange(0, text@.len() as int) =~= text@);
            if text@.len() > 0 {
                assert(text@.subrange(0, text@.len() - 1) =~= text@.drop_last());
            }
            assert(raw@ == raw_line(t, k as int));
            lemma_sub_bytes(text@, 0, raw@.len() as int);
            assert(raw@ =~= text@.subrange(0, raw@.len() as int));
        }
        let width = chars_byte_len(raw.as_slice());
        let span = SourceSpan { line: k + 1, column: 1, byte_start: line.byte_start, byte_end: line.byte_start + width };
        assert(span == raw_span(t, k as int));
        let (next, token) = token_line(raw.as_slice(), span, block, options);
        match token {
            Token::Skip => {},
            Token::Fail(f) => {
                return Err(f);
            },
            Token::Push(l) => {
                if out.len() >= options.max_nodes {
                    return Err(over_budget_at(StructuredBudgetKind::Nodes, l.span));
                }
                let ghost before = yaml_views(out@);
                out.push(l);
                assert(yaml_views(out@) =~= before.push(l@));
            },
        }
        block = next;
        k = k + 1;
    }
    Ok(out)
}


/// Each line of `source` (from 0) without its line ending, with its span.
pub fn raw_lines(source: &str) -> (r: Vec<(Vec<char>, SourceSpan)>)
    requires
        byte_len(source@) < usize::MAX,
    ensures
        r@.len() == line_count(source@),
        forall|k: int| 0 <= k < r@.len() ==> (#[trigger] r@[k]).0@ == raw_line(source@, k) && r@[k].1 == raw_span(source@, k),
        forall|k: int| 0 <= k < r@.len() ==> byte_len((#[trigger] r@[k]).0@) <= byte_len(source@),
{
    let lines = markdown_lines(source);
    let chars = chars_of(source);
    let ends_newline = chars.len() > 0 && chars[chars.len() - 1] == '\n';
    let ghost t = source@;
    let ghost pieces = split_on(t, '\n');
    proof { lemma_last_piece(t); }
    let mut out: Vec<(Vec<char>, SourceSpan)> = Vec::new();
    let mut k: usize = 0;
    while k < lines.len()
        invariant
            t == source@,
            pieces == split_on(t, '\n'),
            pieces.len() >= 1,
            (pieces.last().len() == 0) == (t.len() == 0 || t.last() == '\n'),
            ends_newline == (t.len() > 0 && t.last() == '\n'),
            byte_len(t) < usize::MAX,
            lines@.len() == line_count(t),
            forall|m: int| 0 <= m < lines@.len() ==> {
                &&& (#[trigger] lines@[m]).number == m + 1
                &&& lines@[m].byte_start == piece_byte_start(pieces, m)
                &&& lines@[m].text@ == line_text(t, m)
                &&& lines@[m].byte_start + byte_len(lines@[m].text@) <= byte_len(t)
            },
            k <= lines@.len(),
            out@.len() == k,
            forall|m: int| 0 <= m < k ==> (#[trigger] out@[m]).0@ == raw_line(t, m) && out@[m].1 == raw_span(t, m),
            forall|m: int| 0 <= m < k ==> byte_len((#[trigger] out@[m]).0@) <= byte_len(t),
        decreases lines.len() - k,
    {
        let line = &lines[k];
        let text = chars_of(line.text.as_str());
        let is_last_piece = k + 1 == lines.len() && !ends_newline;
        assert(is_last_piece == (k == pieces.len() - 1));
        let raw = if is_last_piece && text.len() > 0 && text[text.len() - 1] == '\r' {
            crate::text::slice_of(text.as_slice(), 0, text.len() - 1)
        } else {
            crate::text::slice_of(text.as_slice(), 0, text.len())
        };
        proof {
            assert(text@.subrange(0, text@.len() as int) =~= text@);
            if text@.len() > 0 {
                assert(text@.subrange(0, text@.len() - 1) =~= text@.drop_last());
            }
            assert(raw@ == raw_line(t, k as int));
            lemma_sub_bytes(text@, 0, raw@.len() as int);
            assert(raw@ =~= text@.subrange(0, raw@.len() as int));
        }
        let width = chars_byte_len(raw.as_slice());
        let span = SourceSpan { line: k + 1, column: 1, byte_start: line.byte_start, byte_end: line.byte_start + width };
        out.push((raw, span));
        k = k + 1;
    }
    out
}

} // verus!

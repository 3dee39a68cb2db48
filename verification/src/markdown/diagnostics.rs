//! Source lines and their spans, and the line-level diagnostics of a
//! Markdown document: unclosed link labels and targets, unresolved
//! reference links.

use vstd::prelude::*;
use vstd::utf8::encode_utf8;
use vstd::string::StringSliceAdditionalSpecFns;
use crate::fs::containment::split_on;
use crate::gitlocal::gowork::strip_cr;
use crate::markdown::context::{char_width, lemma_encode_char_len, lemma_encode_concat, utf8_width};
use crate::markdown::routes::RouteKind;
use crate::text::{has_char, ascii_lower, char_is_ascii_alphanumeric, char_is_ascii_whitespace, char_to_lower, is_ascii_alphanumeric, is_ascii_whitespace, lower_char, char_is_whitespace, chars_of, is_whitespace, occurs_at, slice_of, string_of, to_ascii_lower, trim, trimmed};

verus! {

/// The UTF-8 length of a text.
pub open spec fn byte_len(s: Seq<char>) -> nat {
    encode_utf8(s).len()
}

/// Where the `k`th `\n`-separated piece starts, in bytes: the pieces before
/// it, each with its `\n`.
pub open spec fn piece_byte_start(pieces: Seq<Seq<char>>, k: int) -> nat
    decreases k,
{
    if k <= 0 {
        0
    } else {
        piece_byte_start(pieces, k - 1) + byte_len(pieces[k - 1]) + 1
    }
}

/// The number of lines of a text: its `\n` pieces, without an empty one
/// after a final `\n`.
pub open spec fn line_count(text: Seq<char>) -> nat {
    let pieces = split_on(text, '\n');
    if pieces.last().len() == 0 { (pieces.len() - 1) as nat } else { pieces.len() }
}

/// Line `k` (from 0): a piece without its `\r\n` ending.
pub open spec fn line_text(text: Seq<char>, k: int) -> Seq<char> {
    let pieces = split_on(text, '\n');
    if k < pieces.len() - 1 { strip_cr(pieces[k]) } else { pieces[k] }
}

/// A line of a document: its number (from 1), the byte offset where it
/// starts, and its text without the line ending.
#[derive(Debug, Clone, PartialEq, Eq)]
pub struct MarkdownLine {
    pub number: usize,
    pub byte_start: usize,
    pub text: String,
}

proof fn lemma_split_len(s: Seq<char>, sep: char)
    ensures
        split_on(s, sep).len() <= s.len() + 1,
    decreases s.len(),
{
    if s.len() > 0 {
        lemma_split_len(s.drop_last(), sep);
        crate::fs::containment::lemma_split_nonempty(s.drop_last(), sep);
        assert(split_on(s, sep).len() <= split_on(s.drop_last(), sep).len() + 1);
    } else {
        assert(split_on(s, sep).len() == 1);
    }
}

proof fn lemma_piece_start_prefix(p: Seq<Seq<char>>, q: Seq<Seq<char>>, k: int)
    requires
        0 <= k <= p.len(),
        k <= q.len(),
        forall|j: int| 0 <= j < k ==> p[j] == q[j],
    ensures
        piece_byte_start(p, k) == piece_byte_start(q, k),
    decreases k,
{
    if k > 0 {
        lemma_piece_start_prefix(p, q, k - 1);
    }
}

/// The lines of a text as `split_inclusive('\n')` cuts them.
pub fn markdown_lines(text: &str) -> (out: Vec<MarkdownLine>)
    ensures
        out@.len() == line_count(text@),
        forall|k: int| 0 <= k < out@.len() ==> {
            &&& (#[trigger] out@[k]).number == k + 1
            &&& out@[k].byte_start == piece_byte_start(split_on(text@, '\n'), k)
            &&& out@[k].text@ == line_text(text@, k)
            &&& out@[k].byte_start + byte_len(out@[k].text@) <= byte_len(text@)
        },
{
    let t = chars_of(text);
    let total = text.as_bytes().len();
    let ghost ts = t@;
    let mut out: Vec<MarkdownLine> = Vec::new();
    let mut cur: Vec<char> = Vec::new();
    let mut start: usize = 0;
    let mut offset: usize = 0;
    let mut i: usize = 0;
    assert(ts.take(0) =~= Seq::<char>::empty());
    proof { lemma_encode_concat(Seq::<char>::empty(), Seq::<char>::empty()); }
    assert(encode_utf8(Seq::<char>::empty()) =~= Seq::<u8>::empty());
    while i < t.len()
        invariant
            out@.len() + cur@.len() <= i,
            ts == t@,
            ts == text@,
            total == byte_len(ts),
            i <= t.len(),
            offset == byte_len(ts.take(i as int)),
            offset <= total,
            out@.len() + 1 == split_on(ts.take(i as int), '\n').len(),
            cur@ == split_on(ts.take(i as int), '\n').last(),
            start == piece_byte_start(split_on(ts.take(i as int), '\n'), out@.len() as int),
            offset == start + byte_len(cur@),
            forall|k: int| 0 <= k < out@.len() ==> {
                &&& (#[trigger] out@[k]).number == k + 1
                &&& out@[k].byte_start == piece_byte_start(split_on(ts.take(i as int), '\n'), k)
                &&& out@[k].text@ == strip_cr(split_on(ts.take(i as int), '\n')[k])
                &&& out@[k].byte_start + byte_len(out@[k].text@) <= start
            },
        decreases t.len() - i,
    {
        let ghost pre = ts.take(i as int);
        let ghost p = split_on(pre, '\n');
        let c = t[i];
        proof { lemma_split_len(pre, '\n'); }
        assert(ts.take(i + 1) =~= pre.push(c));
        assert(ts.take(i + 1).drop_last() =~= pre);
        proof {
            lemma_encode_concat(pre, seq![c]);
            lemma_encode_char_len(c);
            assert(pre + seq![c] =~= pre.push(c));
            lemma_encode_concat(ts.take(i + 1), ts.skip(i + 1));
            assert(ts.take(i + 1) + ts.skip(i + 1) =~= ts);
        }
        let w = char_width(c);
        if c == '\n' {
            let line_end = if cur.len() > 0 && cur[cur.len() - 1] == '\r' { cur.len() - 1 } else { cur.len() };
            let line = crate::text::slice_of(cur.as_slice(), 0, line_end);
            proof {
                assert(cur@.subrange(0, cur@.len() as int) =~= cur@);
                if cur@.len() > 0 {
                    assert(cur@.drop_last() =~= cur@.subrange(0, cur@.len() - 1));
                    lemma_encode_concat(cur@.drop_last(), seq![cur@.last()]);
                    assert(cur@.drop_last() + seq![cur@.last()] =~= cur@);
                }
                assert(byte_len(line@) <= byte_len(cur@));
            }
            let n = out.len() + 1;
            out.push(MarkdownLine { number: n, byte_start: start, text: string_of(line.as_slice()) });
            offset = offset + w;
            start = offset;
            cur = Vec::new();
            proof {
                let q = split_on(ts.take(i + 1), '\n');
                assert(q =~= p.push(Seq::<char>::empty()));
                lemma_piece_start_prefix(p, q, p.len() - 1);
                assert forall|k: int| 0 <= k < out@.len() implies {
                    &&& (#[trigger] out@[k]).number == k + 1
                    &&& out@[k].byte_start == piece_byte_start(q, k)
                    &&& out@[k].text@ == strip_cr(q[k])
                    &&& out@[k].byte_start + byte_len(out@[k].text@) <= start
                } by {
                    lemma_piece_start_prefix(p, q, k);
                }
                assert(piece_byte_start(q, out@.len() as int) == piece_byte_start(q, out@.len() - 1) + byte_len(q[out@.len() - 1]) + 1);
            }
        } else {
            cur.push(c);
            offset = offset + w;
            proof {
                let q = split_on(ts.take(i + 1), '\n');
                assert(q =~= p.update(p.len() - 1, p.last().push(c)));
                lemma_piece_start_prefix(p, q, out@.len() as int);
                lemma_encode_concat(p.last(), seq![c]);
                assert(p.last() + seq![c] =~= p.last().push(c));
                assert forall|k: int| 0 <= k < out@.len() implies {
                    &&& (#[trigger] out@[k]).number == k + 1
                    &&& out@[k].byte_start == piece_byte_start(q, k)
                    &&& out@[k].text@ == strip_cr(q[k])
                    &&& out@[k].byte_start + byte_len(out@[k].text@) <= start
                } by {
                    lemma_piece_start_prefix(p, q, k);
                }
            }
        }
        i = i + 1;
    }
    assert(ts.take(t.len() as int) =~= ts);
    proof { lemma_split_len(ts, '\n'); }
    if cur.len() > 0 {
        let n = out.len() + 1;
        out.push(MarkdownLine { number: n, byte_start: start, text: string_of(cur.as_slice()) });
    }
    out
}


#[derive(Debug, Clone, Copy, PartialEq, Eq, Structural)]
pub enum DocumentDiagnosticKind {
    UnclosedLinkLabel,
    UnclosedLinkTarget,
    UnresolvedReferenceLink,
    UnsupportedHtml,
    HtmlAttributeLimitExceeded,
}

/// The order in which diagnostics at one offset are reported.
pub fn diagnostic_kind_rank(kind: DocumentDiagnosticKind) -> (r: u8)
    ensures
        r == match kind {
            DocumentDiagnosticKind::UnclosedLinkLabel => 0u8,
            DocumentDiagnosticKind::UnclosedLinkTarget => 1u8,
            DocumentDiagnosticKind::UnresolvedReferenceLink => 2u8,
            DocumentDiagnosticKind::UnsupportedHtml => 3u8,
            DocumentDiagnosticKind::HtmlAttributeLimitExceeded => 4u8,
        },
{
    match kind {
        DocumentDiagnosticKind::UnclosedLinkLabel => 0,
        DocumentDiagnosticKind::UnclosedLinkTarget => 1,
        DocumentDiagnosticKind::UnresolvedReferenceLink => 2,
        DocumentDiagnosticKind::UnsupportedHtml => 3,
        DocumentDiagnosticKind::HtmlAttributeLimitExceeded => 4,
    }
}

/// A place in a document: line and column (from 1, in characters) of its
/// start, and its byte range.
#[derive(Debug, Clone, Copy, PartialEq, Eq, Structural)]
pub struct SourceSpan {
    pub line: usize,
    pub column: usize,
    pub byte_start: usize,
    pub byte_end: usize,
}

#[derive(Debug, Clone, Copy, PartialEq, Eq, Structural)]
pub struct DocumentDiagnostic {
    pub kind: DocumentDiagnosticKind,
    pub span: SourceSpan,
}

/// The line's byte range is addressable.
pub open spec fn line_fits(line: MarkdownLine) -> bool {
    line.byte_start + byte_len(line.text@) <= usize::MAX
}

/// The span of characters `start..end` of a line.
pub open spec fn line_span(line: MarkdownLine, start: int, end: int) -> SourceSpan {
    span_of_line(line.number, line.byte_start, line.text@, start, end)
}

/// The span of characters `start..end` of line `number`, whose text `text`
/// starts at byte `byte_start`.
pub open spec fn span_of_line(number: usize, byte_start: usize, text: Seq<char>, start: int, end: int) -> SourceSpan {
    SourceSpan {
        line: number,
        column: (start + 1) as usize,
        byte_start: (byte_start + byte_len(text.take(start))) as usize,
        byte_end: (byte_start + byte_len(text.take(end))) as usize,
    }
}

proof fn lemma_prefix_bytes(s: Seq<char>, i: int, j: int)
    requires
        0 <= i <= j <= s.len(),
    ensures
        byte_len(s.take(i)) <= byte_len(s.take(j)),
{
    lemma_encode_concat(s.take(i), s.subrange(i, j));
    assert(s.take(i) + s.subrange(i, j) =~= s.take(j));
}

/// The UTF-8 length of the first `n` characters.
fn prefix_bytes(s: &[char], n: usize) -> (r: usize)
    requires
        n <= s.len(),
        byte_len(s@) <= usize::MAX,
    ensures
        r == byte_len(s@.take(n as int)),
{
    let mut k: usize = 0;
    let mut total: usize = 0;
    assert(s@.take(0) =~= Seq::<char>::empty());
    assert(encode_utf8(Seq::<char>::empty()) =~= Seq::<u8>::empty());
    while k < n
        invariant
            k <= n <= s.len(),
            byte_len(s@) <= usize::MAX,
            total == byte_len(s@.take(k as int)),
        decreases n - k,
    {
        proof {
            lemma_encode_concat(s@.take(k as int), seq![s@[k as int]]);
            assert(s@.take(k as int) + seq![s@[k as int]] =~= s@.take(k + 1));
            lemma_encode_char_len(s@[k as int]);
            lemma_prefix_bytes(s@, k + 1, s@.len() as int);
            assert(s@.take(s@.len() as int) =~= s@);
        }
        total = total + char_width(s[k]);
        k = k + 1;
    }
    total
}

/// `line_span(line, start, end)`.
pub fn source_span(line: &MarkdownLine, start: usize, end: usize) -> (r: SourceSpan)
    requires
        start <= end <= line.text@.len(),
        start < usize::MAX,
        line_fits(*line),
    ensures
        r == line_span(*line, start as int, end as int),
{
    let t = chars_of(line.text.as_str());
    proof {
        lemma_prefix_bytes(t@, start as int, end as int);
        lemma_prefix_bytes(t@, end as int, t@.len() as int);
        assert(t@.take(t@.len() as int) =~= t@);
    }
    let a = prefix_bytes(t.as_slice(), start);
    let b = prefix_bytes(t.as_slice(), end);
    SourceSpan { line: line.number, column: start + 1, byte_start: line.byte_start + a, byte_end: line.byte_start + b }
}

/// The first index at or after `from` holding `ch`; `-1` if none.
pub open spec fn find_char_from(l: Seq<char>, ch: char, from: int) -> int
    decreases l.len() - from,
{
    if from < 0 || from >= l.len() {
        -1
    } else if l[from] == ch {
        from
    } else {
        find_char_from(l, ch, from + 1)
    }
}

pub proof fn lemma_find_char(l: Seq<char>, ch: char, from: int)
    ensures
        find_char_from(l, ch, from) == -1 || (0 <= from <= find_char_from(l, ch, from) < l.len()
            && l[find_char_from(l, ch, from)] == ch),
    decreases l.len() - from,
{
    if 0 <= from < l.len() && l[from] != ch {
        lemma_find_char(l, ch, from + 1);
    }
}

/// `find_char_from(l, ch, from)`.
pub fn find_char(l: &[char], ch: char, from: usize) -> (r: Option<usize>)
    ensures
        match r {
            Some(i) => i as int == find_char_from(l@, ch, from as int),
            None => find_char_from(l@, ch, from as int) == -1,
        },
{
    let mut i = from;
    while i < l.len()
        invariant
            from <= i,
            find_char_from(l@, ch, from as int) == find_char_from(l@, ch, i as int),
        decreases l.len() - i,
    {
        if l[i] == ch {
            return Some(i);
        }
        i = i + 1;
    }
    None
}

/// An inline link or image opens at `c`: `[`, or `![`.
pub open spec fn opens_link(l: Seq<char>, c: int) -> bool {
    l[c] == '[' || (l[c] == '!' && c + 1 < l.len() && l[c + 1] == '[')
}

/// Where the label of a link opening at `c` starts.
pub open spec fn label_start(l: Seq<char>, c: int) -> int {
    if l[c] == '[' { c + 1 } else { c + 2 }
}

/// Scanning a line from `c`: the first link whose label or whose
/// parenthesised target is never closed, and where it opens. A label
/// followed by anything but `(` is passed over.
pub open spec fn malformed_from(l: Seq<char>, c: int) -> Option<(DocumentDiagnosticKind, int)>
    decreases l.len() - c,
{
    if c < 0 || c >= l.len() {
        None
    } else if !opens_link(l, c) {
        malformed_from(l, c + 1)
    } else {
        let le = find_char_from(l, ']', label_start(l, c));
        proof { lemma_find_char(l, ']', label_start(l, c)); }
        if le < 0 {
            Some((DocumentDiagnosticKind::UnclosedLinkLabel, c))
        } else if !(le + 1 < l.len() && l[le + 1] == '(') {
            malformed_from(l, le + 1)
        } else {
            let te = find_char_from(l, ')', le + 2);
            proof { lemma_find_char(l, ')', le + 2); }
            if te < 0 {
                Some((DocumentDiagnosticKind::UnclosedLinkTarget, c))
            } else {
                malformed_from(l, te + 1)
            }
        }
    }
}

/// The diagnostic of a line's first unclosed link label or target, which
/// spans from the link's opening to the end of the line.
pub fn diagnose_malformed_link(line: &MarkdownLine) -> (r: Option<DocumentDiagnostic>)
    requires
        line_fits(*line),
    ensures
        match malformed_from(line.text@, 0) {
            Some((kind, c)) => r == Some(DocumentDiagnostic { kind, span: line_span(*line, c, line.text@.len() as int) }),
            None => r is None,
        },
{
    let t = chars_of(line.text.as_str());
    let l = t.as_slice();
    let mut cursor: usize = 0;
    while cursor < l.len()
        invariant
            t@ == line.text@,
            l@ == line.text@,
            line_fits(*line),
            malformed_from(l@, 0) == malformed_from(l@, cursor as int),
        decreases l.len() - cursor,
    {
        let image = l[cursor] == '!' && cursor + 1 < l.len() && l[cursor + 1] == '[';
        if l[cursor] != '[' && !image {
            cursor = cursor + 1;
        } else {
            let start = if l[cursor] == '[' { cursor + 1 } else { cursor + 2 };
            proof { lemma_find_char(l@, ']', start as int); }
            match find_char(l, ']', start) {
                None => {
                    let span = source_span(line, cursor, l.len());
                    return Some(DocumentDiagnostic { kind: DocumentDiagnosticKind::UnclosedLinkLabel, span });
                },
                Some(label_end) => {
                    if !(label_end + 1 < l.len() && l[label_end + 1] == '(') {
                        cursor = label_end + 1;
                    } else {
                        proof { lemma_find_char(l@, ')', label_end + 2); }
                        match find_char(l, ')', label_end + 2) {
                            None => {
                                let span = source_span(line, cursor, l.len());
                                return Some(DocumentDiagnostic { kind: DocumentDiagnosticKind::UnclosedLinkTarget, span });
                            },
                            Some(target_end) => {
                                cursor = target_end + 1;
                            },
                        }
                    }
                },
            }
        }
    }
    None
}


/// `split_whitespace().join(" ")`, built left to right: the text so far
/// and whether a separator is pending.
pub open spec fn collapse_ws(s: Seq<char>) -> (Seq<char>, bool)
    decreases s.len(),
{
    if s.len() == 0 {
        (Seq::empty(), false)
    } else {
        let (out, pending) = collapse_ws(s.drop_last());
        let c = s.last();
        if is_whitespace(c) {
            (out, out.len() > 0)
        } else if pending {
            (out.push(' ').push(c), false)
        } else {
            (out.push(c), false)
        }
    }
}

/// The words of a text joined by single spaces.
pub open spec fn visible_text(s: Seq<char>) -> Seq<char> {
    collapse_ws(s).0
}

/// A reference label as it is matched: its words, ASCII lower-cased.
pub open spec fn reference_label(s: Seq<char>) -> Seq<char> {
    ascii_lower(visible_text(s))
}

/// `visible_text(value)`.
pub fn normalized_visible_text(value: &[char]) -> (r: Vec<char>)
    ensures
        r@ == visible_text(value@),
{
    let mut out: Vec<char> = Vec::new();
    let mut pending = false;
    let mut i: usize = 0;
    assert(value@.take(0) =~= Seq::<char>::empty());
    while i < value.len()
        invariant
            i <= value.len(),
            (out@, pending) == collapse_ws(value@.take(i as int)),
        decreases value.len() - i,
    {
        assert(value@.take(i + 1).drop_last() =~= value@.take(i as int));
        let c = value[i];
        if char_is_whitespace(c) {
            pending = out.len() > 0;
        } else {
            if pending {
                out.push(' ');
            }
            out.push(c);
            pending = false;
        }
        i = i + 1;
    }
    assert(value@.take(value.len() as int) =~= value@);
    out
}

/// `reference_label(value)`.
pub fn normalize_reference_label(value: &[char]) -> (r: Vec<char>)
    ensures
        r@ == reference_label(value@),
{
    let v = normalized_visible_text(value);
    to_ascii_lower(v.as_slice())
}

/// The first index at or after `from` where `p` occurs; `-1` if none.
pub open spec fn find_str_from(s: Seq<char>, p: Seq<char>, from: int) -> int
    decreases s.len() + 1 - from,
{
    if from < 0 || from + p.len() > s.len() {
        -1
    } else if occurs_at(s, p, from) {
        from
    } else {
        find_str_from(s, p, from + 1)
    }
}

proof fn lemma_find_str(s: Seq<char>, p: Seq<char>, from: int, i: int)
    requires
        0 <= from,
        forall|j: int| from <= j < i ==> !occurs_at(s, p, j),
        i == -1 ==> forall|j: int| from <= j ==> !occurs_at(s, p, j),
        i != -1 ==> from <= i && occurs_at(s, p, i),
    ensures
        find_str_from(s, p, from) == i,
    decreases s.len() + 1 - from,
{
    if from + p.len() <= s.len() && !occurs_at(s, p, from) {
        lemma_find_str(s, p, from + 1, i);
    }
}

/// The label that a definition line `[label]: target` defines.
pub open spec fn definition_label(line: Seq<char>) -> Option<Seq<char>> {
    if line.len() == 0 || line[0] != '[' {
        None
    } else {
        let rest = line.drop_first();
        let e1 = find_str_from(rest, seq![']', ':', ' '], 0);
        let end = if e1 >= 0 { e1 } else { find_str_from(rest, seq![']', ':'], 0) };
        if end < 0 {
            None
        } else {
            let label = reference_label(rest.take(end));
            if label.len() == 0 { None } else { Some(label) }
        }
    }
}

fn find_str(s: &[char], p: &[char]) -> (r: Option<usize>)
    ensures
        match r {
            Some(i) => i as int == find_str_from(s@, p@, 0) && i <= s.len(),
            None => find_str_from(s@, p@, 0) == -1,
        },
{
    let r = crate::text::find_from(s, p, 0);
    proof {
        match r {
            Some(i) => { lemma_find_str(s@, p@, 0, i as int); },
            None => { lemma_find_str(s@, p@, 0, -1); },
        }
    }
    r
}

/// `definition_label(line)`.
pub fn definition_label_of(line: &[char]) -> (r: Option<Vec<char>>)
    ensures
        match definition_label(line@) {
            Some(l) => r matches Some(v) && v@ == l,
            None => r is None,
        },
{
    if line.len() == 0 || line[0] != '[' {
        return None;
    }
    let rest_v = slice_of(line, 1, line.len());
    let rest = rest_v.as_slice();
    assert(rest@ =~= line@.drop_first());
    let pat1: Vec<char> = vec![']', ':', ' '];
    let pat2: Vec<char> = vec![']', ':'];
    assert(pat1@ =~= seq![']', ':', ' ']);
    assert(pat2@ =~= seq![']', ':']);
    let end = match find_str(rest, pat1.as_slice()) {
        Some(e) => e,
        None => match find_str(rest, pat2.as_slice()) {
            Some(e) => e,
            None => { return None; },
        },
    };
    let head = slice_of(rest, 0, end);
    assert(head@ =~= rest@.take(end as int));
    let label = normalize_reference_label(head.as_slice());
    if label.len() == 0 {
        None
    } else {
        Some(label)
    }
}

pub open spec fn line_texts(lines: Seq<MarkdownLine>) -> Seq<Seq<char>> {
    lines.map_values(|l: MarkdownLine| l.text@)
}

/// The labels defined by the lines (with repeats).
pub fn collect_reference_definitions(lines: &[MarkdownLine]) -> (r: Vec<Vec<char>>)
    ensures
        forall|x: Seq<char>| crate::fs::containment::views(r@).contains(x) <==> exists|k: int|
            0 <= k < lines@.len() && definition_label(#[trigger] lines@[k].text@) == Some(x),
{
    let mut out: Vec<Vec<char>> = Vec::new();
    let mut i: usize = 0;
    while i < lines.len()
        invariant
            i <= lines.len(),
            forall|x: Seq<char>| crate::fs::containment::views(out@).contains(x) <==> exists|k: int|
                0 <= k < i && definition_label(#[trigger] lines@[k].text@) == Some(x),
        decreases lines.len() - i,
    {
        let ghost before = crate::fs::containment::views(out@);
        let t = chars_of(lines[i].text.as_str());
        match definition_label_of(t.as_slice()) {
            Some(label) => {
                out.push(label);
                proof {
                    let after = crate::fs::containment::views(out@);
                    assert(after =~= before.push(definition_label(lines@[i as int].text@)->Some_0));
                    assert forall|x: Seq<char>| after.contains(x) <==> exists|k: int|
                        0 <= k < i + 1 && definition_label(#[trigger] lines@[k].text@) == Some(x) by {
                        if after.contains(x) {
                            let m = choose|m: int| 0 <= m < after.len() && after[m] == x;
                            if m < before.len() {
                                assert(before[m] == x);
                                assert(before.contains(x));
                            } else {
                                assert(definition_label(lines@[i as int].text@) == Some(x));
                            }
                        }
                        if exists|k: int| 0 <= k < i + 1 && definition_label(#[trigger] lines@[k].text@) == Some(x) {
                            let k = choose|k: int| 0 <= k < i + 1 && definition_label(#[trigger] lines@[k].text@) == Some(x);
                            if k < i {
                                assert(before.contains(x));
                                let m = choose|m: int| 0 <= m < before.len() && before[m] == x;
                                assert(after[m] == x);
                            } else {
                                assert(after[before.len() as int] == x);
                            }
                        }
                    }
                }
            },
            None => {
                proof {
                    assert forall|x: Seq<char>| before.contains(x) <==> exists|k: int|
                        0 <= k < i + 1 && definition_label(#[trigger] lines@[k].text@) == Some(x) by {
                        if exists|k: int| 0 <= k < i + 1 && definition_label(#[trigger] lines@[k].text@) == Some(x) {
                            let k = choose|k: int| 0 <= k < i + 1 && definition_label(#[trigger] lines@[k].text@) == Some(x);
                            assert(k < i);
                        }
                    }
                }
            },
        }
        i = i + 1;
    }
    out
}


/// Scanning a line from `c`: the reference links `[text][label]` (or
/// `[text][]`) whose label has no definition, as character ranges from the
/// link's opening to past its closing `]`. The scan ends at an unclosed
/// bracket.
pub open spec fn unresolved_from(l: Seq<char>, defs: Set<Seq<char>>, c: int) -> Seq<(int, int)>
    decreases l.len() - c,
{
    if c < 0 || c >= l.len() {
        Seq::empty()
    } else if !opens_link(l, c) {
        unresolved_from(l, defs, c + 1)
    } else {
        let ls = label_start(l, c);
        let le = find_char_from(l, ']', ls);
        proof { lemma_find_char(l, ']', ls); }
        if le < 0 {
            Seq::empty()
        } else if !(le + 1 < l.len() && l[le + 1] == '[') {
            unresolved_from(l, defs, le + 1)
        } else {
            let re = find_char_from(l, ']', le + 2);
            proof { lemma_find_char(l, ']', le + 2); }
            if re < 0 {
                Seq::empty()
            } else {
                let raw = trim(l.subrange(le + 2, re));
                let label = if raw.len() == 0 { l.subrange(ls, le) } else { raw };
                let here: Seq<(int, int)> = if defs.contains(reference_label(label)) { Seq::empty() } else { seq![(c, re + 1)] };
                here + unresolved_from(l, defs, re + 1)
            }
        }
    }
}

fn defined(defs: &[Vec<char>], label: &[char]) -> (r: bool)
    ensures
        r == crate::fs::containment::views(defs@).contains(label@),
{
    let mut i: usize = 0;
    while i < defs.len()
        invariant
            i <= defs.len(),
            forall|k: int| 0 <= k < i ==> crate::fs::containment::views(defs@)[k] != label@,
        decreases defs.len() - i,
    {
        assert(crate::fs::containment::views(defs@)[i as int] == defs@[i as int]@);
        if crate::text::same_chars(defs[i].as_slice(), label) {
            return true;
        }
        i = i + 1;
    }
    false
}

/// The diagnostics of a line's reference links whose label is not among
/// the defined ones.
pub fn diagnose_unresolved_references(line: &MarkdownLine, definitions: &[Vec<char>]) -> (r: Vec<DocumentDiagnostic>)
    requires
        line_fits(*line),
    ensures
        r@.len() == unresolved_from(line.text@, crate::fs::containment::views(definitions@).to_set(), 0).len(),
        forall|k: int| 0 <= k < r@.len() ==> {
            let range = unresolved_from(line.text@, crate::fs::containment::views(definitions@).to_set(), 0)[k];
            #[trigger] r@[k] == (DocumentDiagnostic {
                kind: DocumentDiagnosticKind::UnresolvedReferenceLink,
                span: line_span(*line, range.0, range.1),
            })
        },
{
    let ghost defs = crate::fs::containment::views(definitions@).to_set();
    let t = chars_of(line.text.as_str());
    let l = t.as_slice();
    let mut out: Vec<DocumentDiagnostic> = Vec::new();
    let ghost mut ranges: Seq<(int, int)> = Seq::empty();
    let mut cursor: usize = 0;
    while cursor < l.len()
        invariant
            t@ == line.text@,
            l@ == line.text@,
            line_fits(*line),
            defs == crate::fs::containment::views(definitions@).to_set(),
            unresolved_from(l@, defs, 0) == ranges + unresolved_from(l@, defs, cursor as int),
            out@.len() == ranges.len(),
            forall|k: int| 0 <= k < out@.len() ==> #[trigger] out@[k] == (DocumentDiagnostic {
                kind: DocumentDiagnosticKind::UnresolvedReferenceLink,
                span: line_span(*line, ranges[k].0, ranges[k].1),
            }),
        ensures
            unresolved_from(l@, defs, 0) == ranges,
            out@.len() == ranges.len(),
            forall|k: int| 0 <= k < out@.len() ==> #[trigger] out@[k] == (DocumentDiagnostic {
                kind: DocumentDiagnosticKind::UnresolvedReferenceLink,
                span: line_span(*line, ranges[k].0, ranges[k].1),
            }),
        decreases l.len() - cursor,
    {
        let image = l[cursor] == '!' && cursor + 1 < l.len() && l[cursor + 1] == '[';
        if l[cursor] != '[' && !image {
            cursor = cursor + 1;
        } else {
            let start = if l[cursor] == '[' { cursor + 1 } else { cursor + 2 };
            proof { lemma_find_char(l@, ']', start as int); }
            let label_end = match find_char(l, ']', start) {
                None => {
                    assert(unresolved_from(l@, defs, cursor as int) =~= Seq::<(int, int)>::empty());
                    assert(ranges + Seq::<(int, int)>::empty() =~= ranges);
                    break;
                },
                Some(e) => e,
            };
            if !(label_end + 1 < l.len() && l[label_end + 1] == '[') {
                cursor = label_end + 1;
            } else {
                proof { lemma_find_char(l@, ']', label_end + 2); }
                let reference_end = match find_char(l, ']', label_end + 2) {
                    None => {
                        assert(unresolved_from(l@, defs, cursor as int) =~= Seq::<(int, int)>::empty());
                        assert(ranges + Seq::<(int, int)>::empty() =~= ranges);
                        break;
                    },
                    Some(e) => e,
                };
                let raw_v = slice_of(l, label_end + 2, reference_end);
                let raw = trimmed(raw_v.as_slice());
                let label_v = if raw.len() == 0 { slice_of(l, start, label_end) } else { raw };
                let key = normalize_reference_label(label_v.as_slice());
                let known = defined(definitions, key.as_slice());
                let ghost here: Seq<(int, int)> = if known { Seq::empty() } else { seq![(cursor as int, reference_end + 1)] };
                if !known {
                    let span = source_span(line, cursor, reference_end + 1);
                    out.push(DocumentDiagnostic { kind: DocumentDiagnosticKind::UnresolvedReferenceLink, span });
                }
                proof {
                    assert(ranges + (here + unresolved_from(l@, defs, reference_end + 1))
                        =~= (ranges + here) + unresolved_from(l@, defs, reference_end + 1));
                    ranges = ranges + here;
                }
                cursor = reference_end + 1;
            }
        }
    }
    proof {
        if cursor >= l.len() {
            assert(ranges + Seq::<(int, int)>::empty() =~= ranges);
        }
    }
    out
}


/// `p` occurs at `i` in `s`, ignoring ASCII case.
pub open spec fn ci_occurs_at(s: Seq<char>, p: Seq<char>, i: int) -> bool {
    0 <= i && i + p.len() <= s.len() && ascii_lower(s.subrange(i, i + p.len())) == ascii_lower(p)
}

proof fn lemma_lower_of_symbol(c: char, d: char)
    requires
        lower_char(c) == d,
        !crate::text::is_ascii_lower(d),
    ensures
        c == d,
{
}

/// The first index at or after `from` where a non-empty `p` occurs in `s`,
/// ignoring ASCII case; `-1` if none.
pub open spec fn find_ci_from(s: Seq<char>, p: Seq<char>, from: int) -> int
    decreases s.len() + 1 - from,
{
    if p.len() == 0 || from < 0 || from + p.len() > s.len() {
        -1
    } else if ci_occurs_at(s, p, from) {
        from
    } else {
        find_ci_from(s, p, from + 1)
    }
}

pub proof fn lemma_find_ci(s: Seq<char>, p: Seq<char>, from: int)
    ensures
        find_ci_from(s, p, from) == -1 || (0 <= from <= find_ci_from(s, p, from)
            && find_ci_from(s, p, from) + p.len() <= s.len() && ci_occurs_at(s, p, find_ci_from(s, p, from))),
    decreases s.len() + 1 - from,
{
    if p.len() > 0 && from >= 0 && from + p.len() <= s.len() && !ci_occurs_at(s, p, from) {
        lemma_find_ci(s, p, from + 1);
    }
}

fn ci_matches_at(s: &[char], p: &[char], i: usize) -> (r: bool)
    requires
        i + p.len() <= s.len(),
    ensures
        r == ci_occurs_at(s@, p@, i as int),
{
    let mut k: usize = 0;
    let ghost w = s@.subrange(i as int, i + p.len());
    while k < p.len()
        invariant
            k <= p.len(),
            i + p.len() <= s.len(),
            w == s@.subrange(i as int, i + p.len()),
            forall|m: int| 0 <= m < k ==> lower_char(#[trigger] w[m]) == lower_char(p@[m]),
        decreases p.len() - k,
    {
        assert(w[k as int] == s@[i + k]);
        if char_to_lower(s[i + k]) != char_to_lower(p[k]) {
            assert(ascii_lower(w)[k as int] != ascii_lower(p@)[k as int]);
            return false;
        }
        k = k + 1;
    }
    assert(ascii_lower(w) =~= ascii_lower(p@));
    true
}

/// `find_ci_from(haystack, needle, from)`.
pub fn find_ascii_case_insensitive(haystack: &[char], needle: &[char], from: usize) -> (r: Option<usize>)
    ensures
        match r {
            Some(i) => i as int == find_ci_from(haystack@, needle@, from as int),
            None => find_ci_from(haystack@, needle@, from as int) == -1,
        },
{
    if needle.len() == 0 || from > haystack.len() || needle.len() > haystack.len() - from {
        return None;
    }
    let mut i = from;
    while i <= haystack.len() - needle.len()
        invariant
            needle.len() > 0,
            from <= i,
            needle.len() <= haystack.len(),
            i <= haystack.len() - needle.len() + 1,
            find_ci_from(haystack@, needle@, from as int) == find_ci_from(haystack@, needle@, i as int),
        decreases haystack.len() - needle.len() + 1 - i,
    {
        if ci_matches_at(haystack, needle, i) {
            return Some(i);
        }
        i = i + 1;
    }
    None
}

/// The end of the run of ASCII whitespace from `i`.
pub open spec fn skip_ws(a: Seq<char>, i: int) -> int
    decreases a.len() - i,
{
    if i >= 0 && i < a.len() && is_ascii_whitespace(a[i]) { skip_ws(a, i + 1) } else { i }
}

pub open spec fn is_name_char(c: char) -> bool {
    is_ascii_alphanumeric(c) || c == '-' || c == '_'
}

/// The end of the attribute name from `i`.
pub open spec fn name_end(a: Seq<char>, i: int) -> int
    decreases a.len() - i,
{
    if i >= 0 && i < a.len() && is_name_char(a[i]) { name_end(a, i + 1) } else { i }
}

/// The end of the run of non-whitespace from `i`.
pub open spec fn word_end(a: Seq<char>, i: int) -> int
    decreases a.len() - i,
{
    if i >= 0 && i < a.len() && !is_ascii_whitespace(a[i]) { word_end(a, i + 1) } else { i }
}

pub proof fn lemma_runs(a: Seq<char>, i: int)
    requires
        0 <= i,
    ensures
        i <= skip_ws(a, i),
        i <= name_end(a, i),
        i <= word_end(a, i),
        i <= a.len() ==> skip_ws(a, i) <= a.len() && name_end(a, i) <= a.len() && word_end(a, i) <= a.len(),
        i < a.len() && !is_ascii_whitespace(a[i]) ==> i < word_end(a, i),
        skip_ws(a, i) < a.len() ==> !is_ascii_whitespace(a[skip_ws(a, i)]),
    decreases a.len() - i,
{
    if i < a.len() {
        lemma_runs(a, i + 1);
    }
}

/// The attributes of an `<a` tag scanned from `cursor`, `count` of them
/// seen so far: the value of the last `href` (any case), or why they are
/// refused: more than 32 attributes, an attribute that is not a name of
/// ASCII letters, digits, `-` and `_`, or a missing or unclosed value.
pub open spec fn href_scan(a: Seq<char>, cursor: int, count: int, href: Option<Seq<char>>) -> Result<Option<Seq<char>>, DocumentDiagnosticKind>
    decreases a.len() - cursor,
{
    let c1 = skip_ws(a, cursor);
    if cursor < 0 || c1 >= a.len() {
        Ok(href)
    } else if count + 1 > 32 {
        Err(DocumentDiagnosticKind::HtmlAttributeLimitExceeded)
    } else {
        let ne = name_end(a, c1);
        proof { lemma_runs(a, cursor); lemma_runs(a, c1); }
        if ne == c1 {
            Err(DocumentDiagnosticKind::UnsupportedHtml)
        } else {
            let is_href = ascii_lower(a.subrange(c1, ne)) == "href"@;
            let c2 = skip_ws(a, ne);
            proof { lemma_runs(a, ne); }
            if !(c2 < a.len() && a[c2] == '=') {
                href_scan(a, c2, count + 1, href)
            } else {
                let c3 = skip_ws(a, c2 + 1);
                proof { lemma_runs(a, c2 + 1); }
                if c3 >= a.len() {
                    Err(DocumentDiagnosticKind::UnsupportedHtml)
                } else if a[c3] == '\'' || a[c3] == '"' {
                    let close = find_char_from(a, a[c3], c3 + 1);
                    proof { lemma_find_char(a, a[c3], c3 + 1); }
                    if close < 0 {
                        Err(DocumentDiagnosticKind::UnsupportedHtml)
                    } else {
                        href_scan(a, close + 1, count + 1, if is_href { Some(a.subrange(c3 + 1, close)) } else { href })
                    }
                } else {
                    let ve = word_end(a, c3);
                    proof { lemma_runs(a, c3); }
                    href_scan(a, ve, count + 1, if is_href { Some(a.subrange(c3, ve)) } else { href })
                }
            }
        }
    }
}

fn skip_ascii_ws(a: &[char], i: usize) -> (r: usize)
    requires
        i <= a.len(),
    ensures
        r == skip_ws(a@, i as int),
{
    let mut j = i;
    while j < a.len() && char_is_ascii_whitespace(a[j])
        invariant
            i <= j <= a.len(),
            skip_ws(a@, i as int) == skip_ws(a@, j as int),
        decreases a.len() - j,
    {
        j = j + 1;
    }
    j
}

fn scan_name_end(a: &[char], i: usize) -> (r: usize)
    requires
        i <= a.len(),
    ensures
        r == name_end(a@, i as int),
{
    let mut j = i;
    while j < a.len() && (char_is_ascii_alphanumeric(a[j]) || a[j] == '-' || a[j] == '_')
        invariant
            i <= j <= a.len(),
            name_end(a@, i as int) == name_end(a@, j as int),
        decreases a.len() - j,
    {
        j = j + 1;
    }
    j
}

fn scan_word_end(a: &[char], i: usize) -> (r: usize)
    requires
        i <= a.len(),
    ensures
        r == word_end(a@, i as int),
{
    let mut j = i;
    while j < a.len() && !char_is_ascii_whitespace(a[j])
        invariant
            i <= j <= a.len(),
            word_end(a@, i as int) == word_end(a@, j as int),
        decreases a.len() - j,
    {
        j = j + 1;
    }
    j
}

pub open spec fn opt_chars(o: Option<Vec<char>>) -> Option<Seq<char>> {
    match o {
        Some(v) => Some(v@),
        None => None,
    }
}

/// `href_scan(attributes, 0, 0, None)`.
pub fn scan_html_href(attributes: &[char]) -> (r: Result<Option<Vec<char>>, DocumentDiagnosticKind>)
    ensures
        match href_scan(attributes@, 0, 0, None) {
            Ok(Some(h)) => r matches Ok(Some(v)) && v@ == h,
            Ok(None) => r matches Ok(None),
            Err(k) => r == Err::<Option<Vec<char>>, DocumentDiagnosticKind>(k),
        },
{
    let a = attributes;
    let mut cursor: usize = 0;
    let mut count: usize = 0;
    let mut href: Option<Vec<char>> = None;
    loop
        invariant
            a@ == attributes@,
            cursor <= a.len(),
            count <= 32,
            href_scan(a@, 0, 0, None) == href_scan(a@, cursor as int, count as int, opt_chars(href)),
        decreases a.len() - cursor,
    {
        proof { lemma_runs(a@, cursor as int); }
        let c1 = skip_ascii_ws(a, cursor);
        if c1 >= a.len() {
            return match href {
                Some(v) => Ok(Some(v)),
                None => Ok(None),
            };
        }
        if count + 1 > 32 {
            return Err(DocumentDiagnosticKind::HtmlAttributeLimitExceeded);
        }
        proof { lemma_runs(a@, c1 as int); }
        let ne = scan_name_end(a, c1);
        if ne == c1 {
            return Err(DocumentDiagnosticKind::UnsupportedHtml);
        }
        let name = to_ascii_lower(slice_of(a, c1, ne).as_slice());
        let is_href = crate::text::equals_str(name.as_slice(), "href");
        proof { lemma_runs(a@, ne as int); }
        let c2 = skip_ascii_ws(a, ne);
        if !(c2 < a.len() && a[c2] == '=') {
            cursor = c2;
            count = count + 1;
        } else {
            proof { lemma_runs(a@, c2 + 1); }
            let c3 = skip_ascii_ws(a, c2 + 1);
            if c3 >= a.len() {
                return Err(DocumentDiagnosticKind::UnsupportedHtml);
            }
            let q = a[c3];
            if q == '\'' || q == '"' {
                proof { lemma_find_char(a@, q, c3 + 1); }
                match find_char(a, q, c3 + 1) {
                    None => {
                        return Err(DocumentDiagnosticKind::UnsupportedHtml);
                    },
                    Some(close) => {
                        if is_href {
                            href = Some(slice_of(a, c3 + 1, close));
                        }
                        cursor = close + 1;
                        count = count + 1;
                    },
                }
            } else {
                proof { lemma_runs(a@, c3 as int); }
                let ve = scan_word_end(a, c3);
                if is_href {
                    href = Some(slice_of(a, c3, ve));
                }
                cursor = ve;
                count = count + 1;
            }
        }
    }
}


/// How a link was written.
#[derive(Debug, Clone, Copy, PartialEq, Eq, Structural)]
pub enum MarkdownLinkKind {
    Inline,
    Autolink,
    Reference,
    Image,
    HtmlAnchor,
}

/// A link of a document.
#[derive(Debug, Clone, PartialEq, Eq)]
pub struct MarkdownLink {
    pub text: String,
    pub target: String,
    pub line: usize,
    pub span: Option<SourceSpan>,
    pub route: Option<RouteKind>,
    pub kind: MarkdownLinkKind,
}

/// What scanning a line for `<a>` anchors finds, by character ranges.
pub enum AnchorFinding {
    Link { text: Seq<char>, target: Seq<char>, start: int, end: int },
    Problem { kind: DocumentDiagnosticKind, start: int, end: int },
}

/// The largest `<a ...>` tag read, in bytes.
pub const MAX_HTML_TAG_BYTES: usize = 2048;

/// Scanning a line from `c` for `<a` tags (any case) followed by
/// whitespace or `>`: an anchor with a non-empty `href` and plain,
/// non-empty text is a link; an unclosed tag, an oversized tag, refused
/// attributes, a missing `</a>`, or an `href` anchor with empty or markup
/// text is a problem.
pub open spec fn anchors_from(l: Seq<char>, c: int) -> Seq<AnchorFinding>
    decreases l.len() + 1 - c,
{
    let open = find_ci_from(l, seq!['<', 'a'], c);
    proof { lemma_find_ci(l, seq!['<', 'a'], c); }
    if c < 0 || open < 0 {
        Seq::empty()
    } else if !(open + 2 < l.len() && (is_ascii_whitespace(l[open + 2]) || l[open + 2] == '>')) {
        anchors_from(l, open + 2)
    } else {
        let te = find_char_from(l, '>', open);
        proof { lemma_find_char(l, '>', open); }
        if te < 0 {
            seq![AnchorFinding::Problem { kind: DocumentDiagnosticKind::UnsupportedHtml, start: open, end: l.len() as int }]
        } else if byte_len(l.subrange(open, te + 1)) > MAX_HTML_TAG_BYTES {
            seq![AnchorFinding::Problem { kind: DocumentDiagnosticKind::HtmlAttributeLimitExceeded, start: open, end: te + 1 }]
                + anchors_from(l, te + 1)
        } else {
            match href_scan(l.subrange(open + 2, te), 0, 0, None) {
                Err(kind) => seq![AnchorFinding::Problem { kind, start: open, end: te + 1 }] + anchors_from(l, te + 1),
                Ok(href) => {
                    let close = find_ci_from(l, seq!['<', '/', 'a', '>'], te + 1);
                    proof { lemma_find_ci(l, seq!['<', '/', 'a', '>'], te + 1); }
                    if close < 0 {
                        seq![AnchorFinding::Problem { kind: DocumentDiagnosticKind::UnsupportedHtml, start: open, end: te + 1 }]
                            + anchors_from(l, te + 1)
                    } else {
                        let text = trim(l.subrange(te + 1, close));
                        let here: Seq<AnchorFinding> = match href {
                            Some(h) => if h.len() == 0 {
                                Seq::empty()
                            } else if text.len() > 0 && !has_char(text, '<') {
                                seq![AnchorFinding::Link { text, target: h, start: open, end: close + 4 }]
                            } else {
                                seq![AnchorFinding::Problem { kind: DocumentDiagnosticKind::UnsupportedHtml, start: open, end: close + 4 }]
                            },
                            None => Seq::empty(),
                        };
                        here + anchors_from(l, close + 4)
                    }
                },
            }
        }
    }
}

/// A link or a diagnostic of an HTML anchor, in the order found.
#[derive(Debug, Clone, PartialEq, Eq)]
pub enum AnchorItem {
    Link(MarkdownLink),
    Diagnostic(DocumentDiagnostic),
}

/// The item reported for a finding on a line.
pub open spec fn item_matches(item: AnchorItem, line: MarkdownLine, f: AnchorFinding) -> bool {
    match f {
        AnchorFinding::Link { text, target, start, end } => item matches AnchorItem::Link(m) && {
            &&& m.text@ == text
            &&& m.target@ == target
            &&& m.line == line.number
            &&& m.span == Some(line_span(line, start, end))
            &&& m.route is None
            &&& m.kind == MarkdownLinkKind::HtmlAnchor
        },
        AnchorFinding::Problem { kind, start, end } =>
            item == AnchorItem::Diagnostic(DocumentDiagnostic { kind, span: line_span(line, start, end) }),
    }
}

/// The `<a>` anchors of a line (`anchors_from`), as links and diagnostics.
pub fn parse_html_anchor_links(line: &MarkdownLine) -> (r: Vec<AnchorItem>)
    requires
        line_fits(*line),
    ensures
        r@.len() == anchors_from(line.text@, 0).len(),
        forall|k: int| 0 <= k < r@.len() ==> item_matches(#[trigger] r@[k], *line, anchors_from(line.text@, 0)[k]),
{
    let t = chars_of(line.text.as_str());
    let l = t.as_slice();
    let open_pat: Vec<char> = vec!['<', 'a'];
    let close_pat: Vec<char> = vec!['<', '/', 'a', '>'];
    assert(open_pat@ =~= seq!['<', 'a']);
    assert(close_pat@ =~= seq!['<', '/', 'a', '>']);
    let mut out: Vec<AnchorItem> = Vec::new();
    let ghost mut found: Seq<AnchorFinding> = Seq::empty();
    let mut cursor: usize = 0;
    proof {
        lemma_prefix_bytes(l@, l@.len() as int, l@.len() as int);
        assert(l@.take(l@.len() as int) =~= l@);
    }
    loop
        invariant_except_break
            anchors_from(l@, 0) == found + anchors_from(l@, cursor as int),
        invariant
            t@ == line.text@,
            l@ == line.text@,
            open_pat@ == seq!['<', 'a'],
            close_pat@ == seq!['<', '/', 'a', '>'],
            line_fits(*line),
            cursor <= l.len() + 1,
            out@.len() == found.len(),
            forall|k: int| 0 <= k < out@.len() ==> item_matches(#[trigger] out@[k], *line, found[k]),
        ensures
            anchors_from(l@, 0) == found,
            out@.len() == found.len(),
            forall|k: int| 0 <= k < out@.len() ==> item_matches(#[trigger] out@[k], *line, found[k]),
        decreases l.len() + 1 - cursor,
    {
        proof { lemma_find_ci(l@, open_pat@, cursor as int); }
        let open = match find_ascii_case_insensitive(l, open_pat.as_slice(), cursor) {
            None => {
                assert(found + Seq::<AnchorFinding>::empty() =~= found);
                break;
            },
            Some(o) => o,
        };
        if !(open + 2 < l.len() && (char_is_ascii_whitespace(l[open + 2]) || l[open + 2] == '>')) {
            cursor = open + 2;
        } else {
            proof { lemma_find_char(l@, '>', open as int); }
            let tag_end = match find_char(l, '>', open) {
                None => {
                    let span = source_span(line, open, l.len());
                    let d = DocumentDiagnostic { kind: DocumentDiagnosticKind::UnsupportedHtml, span };
                    let ghost f = AnchorFinding::Problem { kind: DocumentDiagnosticKind::UnsupportedHtml, start: open as int, end: l.len() as int };
                    out.push(AnchorItem::Diagnostic(d));
                    proof {
                        found = found.push(f);
                        assert(anchors_from(l@, cursor as int) =~= seq![f]);
                    }
                    break;
                },
                Some(e) => e,
            };
            proof {
                let w = l@.subrange(open as int, open + 2);
                assert(ascii_lower(w) == ascii_lower(seq!['<', 'a']));
                assert(ascii_lower(w)[0] == lower_char(l@[open as int]));
                assert(ascii_lower(w)[1] == lower_char(l@[open + 1]));
                assert(ascii_lower(seq!['<', 'a'])[0] == '<');
                lemma_lower_of_symbol(l@[open as int], '<');
                assert(l@[open + 1] != '>');
                assert(tag_end >= open + 2);
                lemma_prefix_bytes(l@, open as int, tag_end + 1);
                lemma_prefix_bytes(l@, tag_end + 1, l@.len() as int);
                lemma_encode_concat(l@.take(open as int), l@.subrange(open as int, tag_end + 1));
                assert(l@.take(open as int) + l@.subrange(open as int, tag_end + 1) =~= l@.take(tag_end + 1));
            }
            let before_tag = prefix_bytes(l, open);
            let through_tag = prefix_bytes(l, tag_end + 1);
            let ghost here: Seq<AnchorFinding>;
            if through_tag - before_tag > MAX_HTML_TAG_BYTES {
                let span = source_span(line, open, tag_end + 1);
                out.push(AnchorItem::Diagnostic(DocumentDiagnostic { kind: DocumentDiagnosticKind::HtmlAttributeLimitExceeded, span }));
                proof {
                    here = seq![AnchorFinding::Problem { kind: DocumentDiagnosticKind::HtmlAttributeLimitExceeded, start: open as int, end: tag_end + 1 }];
                }
                cursor = tag_end + 1;
            } else {
                let attrs = slice_of(l, open + 2, tag_end);
                match scan_html_href(attrs.as_slice()) {
                    Err(kind) => {
                        let span = source_span(line, open, tag_end + 1);
                        out.push(AnchorItem::Diagnostic(DocumentDiagnostic { kind, span }));
                        proof {
                            here = seq![AnchorFinding::Problem { kind, start: open as int, end: tag_end + 1 }];
                        }
                        cursor = tag_end + 1;
                    },
                    Ok(href) => {
                        proof { lemma_find_ci(l@, close_pat@, tag_end + 1); }
                        match find_ascii_case_insensitive(l, close_pat.as_slice(), tag_end + 1) {
                            None => {
                                let span = source_span(line, open, tag_end + 1);
                                out.push(AnchorItem::Diagnostic(DocumentDiagnostic { kind: DocumentDiagnosticKind::UnsupportedHtml, span }));
                                proof {
                                    here = seq![AnchorFinding::Problem { kind: DocumentDiagnosticKind::UnsupportedHtml, start: open as int, end: tag_end + 1 }];
                                }
                                cursor = tag_end + 1;
                            },
                            Some(close_start) => {
                                let text = trimmed(slice_of(l, tag_end + 1, close_start).as_slice());
                                let ghost hv = opt_chars(href);
                                match href {
                                    Some(h) => {
                                        if h.len() == 0 {
                                            proof { here = Seq::empty(); }
                                        } else if text.len() > 0 && !crate::text::contains_char(text.as_slice(), '<') {
                                            let span = source_span(line, open, close_start + 4);
                                            let link = MarkdownLink {
                                                text: string_of(text.as_slice()),
                                                target: string_of(h.as_slice()),
                                                line: line.number,
                                                span: Some(span),
                                                route: None,
                                                kind: MarkdownLinkKind::HtmlAnchor,
                                            };
                                            out.push(AnchorItem::Link(link));
                                            proof {
                                                here = seq![AnchorFinding::Link { text: text@, target: h@, start: open as int, end: close_start + 4 }];
                                            }
                                        } else {
                                            let span = source_span(line, open, close_start + 4);
                                            out.push(AnchorItem::Diagnostic(DocumentDiagnostic { kind: DocumentDiagnosticKind::UnsupportedHtml, span }));
                                            proof {
                                                here = seq![AnchorFinding::Problem { kind: DocumentDiagnosticKind::UnsupportedHtml, start: open as int, end: close_start + 4 }];
                                            }
                                        }
                                    },
                                    None => {
                                        proof { here = Seq::empty(); }
                                    },
                                }
                                cursor = close_start + 4;
                            },
                        }
                    },
                }
            }
            proof {
                assert(found + (here + anchors_from(l@, cursor as int)) =~= (found + here) + anchors_from(l@, cursor as int));
                found = found + here;
            }
        }
    }
    out
}


/// `end`, moved back over a `\n` and then a `\r` just before it.
pub open spec fn trimmed_line_end(source: Seq<u8>, end: int) -> int {
    let e1 = if end > 0 && source[end - 1] == 0x0Au8 { end - 1 } else { end };
    if e1 > 0 && source[e1 - 1] == 0x0Du8 { e1 - 1 } else { e1 }
}

/// `trimmed_line_end(source, end)`.
pub fn trim_trailing_line_ending(source: &[u8], end: usize) -> (r: usize)
    requires
        end <= source.len(),
    ensures
        r == trimmed_line_end(source@, end as int),
{
    let mut e = end;
    if e > 0 && source[e - 1] == 0x0A {
        e = e - 1;
    }
    if e > 0 && source[e - 1] == 0x0D {
        e = e - 1;
    }
    e
}

/// A byte that begins a UTF-8 character (is not a continuation byte).
pub open spec fn starts_char(b: u8) -> bool {
    b < 0x80 || b >= 0xC0
}

/// The number of characters in `bytes[from..to]`, counted by the bytes
/// that begin one.
pub open spec fn chars_between(bytes: Seq<u8>, from: int, to: int) -> nat
    decreases to - from,
{
    if to <= from {
        0
    } else {
        chars_between(bytes, from, to - 1) + if starts_char(bytes[to - 1]) { 1nat } else { 0nat }
    }
}

/// The byte offsets where the lines of a source start: 0, and one past
/// each `\n`.
pub open spec fn line_starts(source: Seq<u8>, n: int) -> Seq<usize>
    decreases n,
{
    if n <= 0 {
        seq![0usize]
    } else if source[n - 1] == 0x0Au8 {
        line_starts(source, n - 1).push(n as usize)
    } else {
        line_starts(source, n - 1)
    }
}

/// The line holding byte `byte`: how many line starts are at or before it
/// (at least 1).
pub open spec fn line_of(starts: Seq<usize>, byte: int) -> nat
    decreases starts.len(),
{
    if starts.len() == 0 {
        0
    } else {
        line_of(starts.drop_last(), byte) + if starts.last() <= byte { 1nat } else { 0nat }
    }
}

/// The line holding byte `byte` (at least 1).
pub open spec fn index_line(starts: Seq<usize>, byte: int) -> usize {
    if line_of(starts, byte) >= 1 { line_of(starts, byte) as usize } else { 1 }
}

/// The span of bytes `start..end`: the line of `start`, and its column
/// counted in characters from the start of that line.
pub open spec fn index_span(starts: Seq<usize>, bytes: Seq<u8>, start: int, end: usize) -> SourceSpan {
    let line = index_line(starts, start);
    SourceSpan {
        line,
        column: (chars_between(bytes, starts[line - 1] as int, start) + 1) as usize,
        byte_start: start as usize,
        byte_end: end,
    }
}

/// Lines and columns of byte offsets in a source.
pub struct LineIndex {
    source: Vec<u8>,
    starts: Vec<usize>,
}

impl LineIndex {
    pub closed spec fn bytes(&self) -> Seq<u8> {
        self.source@
    }

    pub closed spec fn starts_seq(&self) -> Seq<usize> {
        self.starts@
    }

    #[verifier::type_invariant]
    spec fn inv(&self) -> bool {
        self.starts@ == line_starts(self.source@, self.source@.len() as int)
    }

    /// The index of a source's line starts.
    pub fn new(source: &str) -> (r: Self)
        ensures
            r.bytes() == source.spec_bytes(),
            r.starts_seq() == line_starts(source.spec_bytes(), source.spec_bytes().len() as int),
    {
        let bytes = source.as_bytes();
        let mut starts: Vec<usize> = vec![0];
        let mut i: usize = 0;
        assert(starts@ =~= line_starts(bytes@, 0));
        while i < bytes.len()
            invariant
                i <= bytes.len(),
                starts@ == line_starts(bytes@, i as int),
            decreases bytes.len() - i,
        {
            if bytes[i] == 0x0A {
                starts.push(i + 1);
            }
            i = i + 1;
        }
        let mut owned: Vec<u8> = Vec::new();
        let mut k: usize = 0;
        while k < bytes.len()
            invariant
                k <= bytes.len(),
                owned@ == bytes@.take(k as int),
            decreases bytes.len() - k,
        {
            owned.push(bytes[k]);
            k = k + 1;
            assert(owned@ =~= bytes@.take(k as int));
        }
        assert(bytes@.take(bytes.len() as int) =~= bytes@);
        LineIndex { source: owned, starts }
    }

    /// `index_line(starts, byte)`: the line holding a byte.
    pub fn line_for(&self, byte: usize) -> (r: usize)
        ensures
            r == index_line(self.starts_seq(), byte as int),
    {
        let mut count: usize = 0;
        let mut i: usize = 0;
        assert(self.starts@.take(0) =~= Seq::<usize>::empty());
        while i < self.starts.len()
            invariant
                i <= self.starts@.len(),
                count == line_of(self.starts@.take(i as int), byte as int),
                count <= i,
            decreases self.starts.len() - i,
        {
            assert(self.starts@.take(i + 1).drop_last() =~= self.starts@.take(i as int));
            if self.starts[i] <= byte {
                count = count + 1;
            }
            i = i + 1;
        }
        assert(self.starts@.take(self.starts@.len() as int) =~= self.starts@);
        if count >= 1 { count } else { 1 }
    }
}


proof fn lemma_line_starts(source: Seq<u8>, n: int)
    requires
        0 <= n <= source.len(),
        source.len() <= usize::MAX,
    ensures
        line_starts(source, n).len() >= 1,
        line_starts(source, n)[0] == 0,
        forall|i: int, j: int| 0 <= i < j < line_starts(source, n).len()
            ==> line_starts(source, n)[i] < line_starts(source, n)[j],
        forall|i: int| 0 <= i < line_starts(source, n).len() ==> line_starts(source, n)[i] <= n,
    decreases n,
{
    if n > 0 {
        lemma_line_starts(source, n - 1);
        let prev = line_starts(source, n - 1);
        let cur = line_starts(source, n);
        if source[n - 1] == 0x0Au8 {
            assert(cur == prev.push(n as usize));
            assert(cur.len() == prev.len() + 1);
            assert(cur[prev.len() as int] == n as usize);
            assert forall|i: int, j: int| 0 <= i < j < cur.len() implies cur[i] < cur[j] by {
                if j == cur.len() - 1 {
                    assert(cur[i] == prev[i]);
                    assert(prev[i] <= n - 1);
                    assert(cur[j] == n as usize);
                } else {
                    assert(cur[i] == prev[i] && cur[j] == prev[j]);
                }
            }
            assert forall|i: int| 0 <= i < cur.len() implies cur[i] <= n by {
                if i < prev.len() {
                    assert(cur[i] == prev[i]);
                }
            }
        }
    }
}

proof fn lemma_line_of(starts: Seq<usize>, byte: int)
    requires
        forall|i: int, j: int| 0 <= i < j < starts.len() ==> starts[i] < starts[j],
    ensures
        line_of(starts, byte) <= starts.len(),
        forall|k: int| 0 <= k < line_of(starts, byte) ==> starts[k] <= byte,
        forall|k: int| line_of(starts, byte) <= k < starts.len() ==> starts[k] > byte,
    decreases starts.len(),
{
    if starts.len() > 0 {
        let d = starts.drop_last();
        assert forall|i: int, j: int| 0 <= i < j < d.len() implies d[i] < d[j] by {
            assert(d[i] == starts[i] && d[j] == starts[j]);
        }
        lemma_line_of(d, byte);
        if starts.last() <= byte {
            assert forall|k: int| 0 <= k < d.len() implies d[k] <= byte by {
                assert(starts[k] < starts[starts.len() - 1]);
                assert(d[k] == starts[k]);
            }
            if line_of(d, byte) < d.len() {
                assert(d[line_of(d, byte) as int] > byte);
            }
            assert(line_of(starts, byte) == starts.len());
            assert forall|k: int| 0 <= k < line_of(starts, byte) implies starts[k] <= byte by {
                if k < d.len() {
                    assert(d[k] == starts[k]);
                }
            }
        } else {
            assert(line_of(starts, byte) == line_of(d, byte));
            assert forall|k: int| 0 <= k < line_of(starts, byte) implies starts[k] <= byte by {
                assert(d[k] == starts[k]);
            }
            assert forall|k: int| line_of(starts, byte) <= k < starts.len() implies starts[k] > byte by {
                if k < d.len() {
                    assert(d[k] == starts[k]);
                }
            }
        }
    }
}

impl LineIndex {
    /// The span of bytes `start..end`: the line and column of `start`.
    pub fn span(&self, start: usize, end: usize) -> (r: SourceSpan)
        requires
            start <= self.bytes().len(),
            start < usize::MAX,
        ensures
            r == index_span(self.starts_seq(), self.bytes(), start as int, end),
    {
        let source_len = self.source.len();
        let starts_len = self.starts.len();
        proof {
            use_type_invariant(self);
            lemma_line_starts(self.source@, source_len as int);
            lemma_line_of(self.starts@, start as int);
            assert(self.starts@[0] == 0);
            assert(line_of(self.starts@, start as int) >= 1);
            assert(line_of(self.starts@, start as int) <= starts_len);
        }
        let line = self.line_for(start);
        let line_start = self.starts[line - 1];
        let mut count: usize = 0;
        let mut i = line_start;
        while i < start
            invariant
                line_start <= i <= start,
                start <= self.source@.len(),
                count == chars_between(self.source@, line_start as int, i as int),
                count <= i - line_start,
            decreases start - i,
        {
            let b = self.source[i];
            if b < 0x80 || b >= 0xC0 {
                count = count + 1;
            }
            i = i + 1;
        }
        SourceSpan { line, column: count + 1, byte_start: start, byte_end: end }
    }
}

} // verus!

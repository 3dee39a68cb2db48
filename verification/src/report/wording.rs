//! The wording lint on one text: where the overclaim phrases of its rules
//! occur as whole words, ignoring ASCII case; which matches stand in a
//! boundary statement; which of the overlapping matches are reported; and
//! where each stands, with the wording to use instead.

use vstd::prelude::*;
use crate::text::{chars_of, string_of};

verus! {

/// A byte that belongs to a word: an ASCII letter or digit, or `_`.
pub open spec fn word_byte(b: u8) -> bool {
    (0x30u8 <= b && b <= 0x39u8) || (0x61u8 <= b && b <= 0x7Au8) || (0x41u8 <= b && b <= 0x5Au8) || b == 0x5Fu8
}

pub fn is_word_byte(b: u8) -> (r: bool)
    ensures
        r == word_byte(b),
{
    (0x30u8 <= b && b <= 0x39u8) || (0x61u8 <= b && b <= 0x7Au8) || (0x41u8 <= b && b <= 0x5Au8) || b == 0x5Fu8
}

/// Neither the byte before `start` nor the byte at `end` is a word byte.
pub open spec fn word_boundary(t: Seq<u8>, start: int, end: int) -> bool {
    !(start >= 1 && start - 1 < t.len() && word_byte(t[start - 1]))
        && !(0 <= end < t.len() && word_byte(t[end]))
}

pub fn is_word_boundary(t: &[u8], start: usize, end: usize) -> (r: bool)
    ensures
        r == word_boundary(t@, start as int, end as int),
{
    let before = start >= 1 && start - 1 < t.len() && is_word_byte(t[start - 1]);
    let after = end < t.len() && is_word_byte(t[end]);
    !before && !after
}

pub open spec fn ascii_lower_byte(b: u8) -> u8 {
    if 0x41u8 <= b && b <= 0x5Au8 { (b + 32) as u8 } else { b }
}

/// `t[start..start + p.len()]` equals `p`, ignoring ASCII case.
pub open spec fn same_ignoring_case(t: Seq<u8>, p: Seq<u8>, start: int) -> bool {
    &&& 0 <= start
    &&& start + p.len() <= t.len()
    &&& forall|k: int| 0 <= k < p.len() ==> ascii_lower_byte(#[trigger] t[start + k]) == ascii_lower_byte(p[k])
}

/// The phrase occurs at `start` as whole words.
pub open spec fn phrase_at(t: Seq<u8>, p: Seq<u8>, start: int) -> bool {
    same_ignoring_case(t, p, start) && word_boundary(t, start, start + p.len())
}

/// The starts below `k` where the phrase occurs, in increasing order.
pub open spec fn phrase_starts(t: Seq<u8>, p: Seq<u8>, k: int) -> Seq<usize>
    decreases k,
{
    if k <= 0 {
        Seq::empty()
    } else if phrase_at(t, p, k - 1) {
        phrase_starts(t, p, k - 1).push((k - 1) as usize)
    } else {
        phrase_starts(t, p, k - 1)
    }
}

/// Every start at which a non-empty phrase occurs in the text as whole
/// words, ignoring ASCII case, in increasing order; none for an empty
/// phrase.
pub open spec fn phrase_occurrences(t: Seq<u8>, p: Seq<u8>) -> Seq<usize> {
    if p.len() == 0 || t.len() < p.len() {
        Seq::empty()
    } else {
        phrase_starts(t, p, t.len() - p.len() + 1)
    }
}

fn lower(b: u8) -> (r: u8)
    ensures
        r == ascii_lower_byte(b),
{
    if 0x41u8 <= b && b <= 0x5Au8 { b + 32 } else { b }
}

fn same_at(t: &[u8], p: &[u8], start: usize) -> (r: bool)
    requires
        start + p@.len() <= t@.len(),
    ensures
        r == same_ignoring_case(t@, p@, start as int),
{
    let n = t.len();
    let mut k: usize = 0;
    while k < p.len()
        invariant
            k <= p@.len(),
            n == t@.len(),
            start + p@.len() <= t@.len(),
            forall|j: int| 0 <= j < k ==> ascii_lower_byte(#[trigger] t@[start + j]) == ascii_lower_byte(p@[j]),
        decreases p.len() - k,
    {
        if lower(t[start + k]) != lower(p[k]) {
            return false;
        }
        k = k + 1;
    }
    true
}

/// `phrase_occurrences(text, phrase)`.
pub fn find_ascii_case_insensitive(text: &[u8], phrase: &[u8]) -> (r: Vec<usize>)
    ensures
        r@ == phrase_occurrences(text@, phrase@),
{
    let mut starts: Vec<usize> = Vec::new();
    if phrase.len() == 0 || text.len() < phrase.len() {
        return starts;
    }
    let n = text.len();
    let last = n - phrase.len();
    let mut start: usize = 0;
    while start <= last
        invariant
            n == text@.len(),
            last == text@.len() - phrase@.len(),
            phrase@.len() > 0,
            start <= last + 1,
            starts@ == phrase_starts(text@, phrase@, start as int),
        decreases last + 1 - start,
    {
        let end = start + phrase.len();
        if is_word_boundary(text, start, end) && same_at(text, phrase, start) {
            starts.push(start);
        }
        start = start + 1;
    }
    starts
}

/// Two byte ranges overlap.
pub open spec fn overlap(a: (usize, usize), b: (usize, usize)) -> bool {
    a.0 < b.1 && b.0 < a.1
}

pub fn spans_overlap(left_start: usize, left_end: usize, right_start: usize, right_end: usize) -> (r: bool)
    ensures
        r == overlap((left_start, left_end), (right_start, right_end)),
{
    left_start < right_end && right_start < left_end
}

/// Some accepted span overlaps `m`.
pub open spec fn overlaps_any(accepted: Seq<(usize, usize)>, m: (usize, usize)) -> bool {
    exists|i: int| 0 <= i < accepted.len() && overlap(m, #[trigger] accepted[i])
}

/// Going through the first `n` matches in order: a match overlapping an
/// accepted one is dropped; one with a boundary exception is counted as
/// suppressed; the others are accepted. The indices accepted, and the
/// count suppressed.
pub open spec fn selection(matches: Seq<(usize, usize)>, exception: Seq<bool>, n: int) -> (Seq<usize>, nat)
    decreases n,
{
    if n <= 0 {
        (Seq::empty(), 0)
    } else {
        let (acc, sup) = selection(matches, exception, n - 1);
        let spans = acc.map_values(|i: usize| matches[i as int]);
        if overlaps_any(spans, matches[n - 1]) {
            (acc, sup)
        } else if exception[n - 1] {
            (acc, sup + 1)
        } else {
            (acc.push((n - 1) as usize), sup)
        }
    }
}

proof fn lemma_selection_bounds(matches: Seq<(usize, usize)>, exception: Seq<bool>, n: int)
    requires
        0 <= n,
    ensures
        selection(matches, exception, n).1 <= n,
        forall|k: int| 0 <= k < selection(matches, exception, n).0.len() ==> (#[trigger] selection(matches, exception, n).0[k]) < n,
    decreases n,
{
    if n > 0 {
        lemma_selection_bounds(matches, exception, n - 1);
    }
}

/// `selection(matches, exception)` over all the matches, which come ordered
/// by start, longer first, then by rule; `exception[i]` says whether match
/// `i` stands in a boundary statement.
pub fn select_matches(matches: &[(usize, usize)], exception: &[bool]) -> (r: (Vec<usize>, usize))
    requires
        exception@.len() == matches@.len(),
    ensures
        r.0@ == selection(matches@, exception@, matches@.len() as int).0,
        r.1 == selection(matches@, exception@, matches@.len() as int).1,
{
    let mut accepted: Vec<usize> = Vec::new();
    let mut spans: Vec<(usize, usize)> = Vec::new();
    let mut suppressed: usize = 0;
    let mut i: usize = 0;
    while i < matches.len()
        invariant
            i <= matches@.len(),
            exception@.len() == matches@.len(),
            accepted@ == selection(matches@, exception@, i as int).0,
            suppressed == selection(matches@, exception@, i as int).1,
            spans@ == accepted@.map_values(|k: usize| matches@[k as int]),
        decreases matches.len() - i,
    {
        proof { lemma_selection_bounds(matches@, exception@, i as int); }
        let m = matches[i];
        let mut hit = false;
        let mut j: usize = 0;
        while j < spans.len()
            invariant
                j <= spans@.len(),
                hit <==> exists|k: int| 0 <= k < j && overlap(m, #[trigger] spans@[k]),
            decreases spans.len() - j,
        {
            if spans_overlap(m.0, m.1, spans[j].0, spans[j].1) {
                hit = true;
            }
            j = j + 1;
        }
        if hit {
        } else if exception[i] {
            suppressed = suppressed + 1;
        } else {
            let ghost before = accepted@;
            accepted.push(i);
            spans.push(m);
            assert(spans@ =~= accepted@.map_values(|k: usize| matches@[k as int]));
        }
        i = i + 1;
    }
    (accepted, suppressed)
}

/// Where the token around a match begins: back over letters, digits, `_`,
/// `-` and `:`.
pub open spec fn token_byte(b: u8) -> bool {
    word_byte(b) || b == 0x2Du8 || b == 0x3Au8
}

pub open spec fn token_start(t: Seq<u8>, i: int) -> int
    decreases i,
{
    if i <= 0 || i > t.len() || !token_byte(t[i - 1]) { i } else { token_start(t, i - 1) }
}

pub open spec fn token_end(t: Seq<u8>, i: int) -> int
    decreases t.len() - i,
{
    if i < 0 || i >= t.len() || !token_byte(t[i]) { i } else { token_end(t, i + 1) }
}

fn is_token_byte(b: u8) -> (r: bool)
    ensures
        r == token_byte(b),
{
    is_word_byte(b) || b == 0x2Du8 || b == 0x3Au8
}

/// `token_start(t, start)`.
pub fn scan_token_start(t: &[u8], start: usize) -> (r: usize)
    requires
        start <= t@.len(),
    ensures
        r == token_start(t@, start as int),
{
    let mut index = start;
    while index > 0 && is_token_byte(t[index - 1])
        invariant
            index <= start <= t@.len(),
            token_start(t@, start as int) == token_start(t@, index as int),
        decreases index,
    {
        index = index - 1;
    }
    index
}

/// `token_end(t, end)`.
pub fn scan_token_end(t: &[u8], end: usize) -> (r: usize)
    requires
        end <= t@.len(),
    ensures
        r == token_end(t@, end as int),
{
    let mut index = end;
    while index < t.len() && is_token_byte(t[index])
        invariant
            end <= index <= t@.len(),
            token_end(t@, end as int) == token_end(t@, index as int),
        decreases t.len() - index,
    {
        index = index + 1;
    }
    index
}


/// `n` occurs in `h`.
pub open spec fn bytes_infix(h: Seq<u8>, n: Seq<u8>) -> bool {
    exists|i: int| 0 <= i && i + n.len() <= h.len() && #[trigger] h.subrange(i, i + n.len()) == n
}

fn contains_bytes(h: &[u8], n: &[u8]) -> (r: bool)
    ensures
        r == bytes_infix(h@, n@),
{
    let hl = h.len();
    let nl = n.len();
    if nl > hl {
        return false;
    }
    let mut i: usize = 0;
    while i <= hl - nl
        invariant
            hl == h@.len(),
            nl == n@.len(),
            nl <= hl,
            i <= hl - nl + 1,
            forall|j: int| 0 <= j < i ==> #[trigger] h@.subrange(j, j + n@.len()) != n@,
        decreases hl - nl + 1 - i,
    {
        let mut k: usize = 0;
        let mut same = true;
        while k < nl
            invariant
                hl == h@.len(),
                nl == n@.len(),
                i + nl <= hl,
                k <= nl,
                same == forall|m: int| 0 <= m < k ==> h@[i + m] == n@[m],
            decreases nl - k,
        {
            if h[i + k] != n[k] {
                same = false;
            }
            k = k + 1;
        }
        if same {
            assert(h@.subrange(i as int, i + nl) =~= n@);
            return true;
        }
        assert(h@.subrange(i as int, i + nl) != n@) by {
            let m = choose|m: int| 0 <= m < nl && h@[i + m] != n@[m];
            assert(h@.subrange(i as int, i + nl)[m] == h@[i + m]);
        }
        i = i + 1;
    }
    false
}

pub open spec fn lower_all(s: Seq<u8>) -> Seq<u8> {
    s.map_values(|b: u8| ascii_lower_byte(b))
}

fn lower_range(t: &[u8], from: usize, to: usize) -> (r: Vec<u8>)
    requires
        from <= to <= t@.len(),
    ensures
        r@ == lower_all(t@.subrange(from as int, to as int)),
{
    let mut out: Vec<u8> = Vec::new();
    let mut i = from;
    while i < to
        invariant
            from <= i <= to <= t@.len(),
            out@ == lower_all(t@.subrange(from as int, i as int)),
        decreases to - i,
    {
        out.push(lower(t[i]));
        assert(t@.subrange(from as int, i + 1) =~= t@.subrange(from as int, i as int).push(t@[i as int]));
        assert(out@ =~= lower_all(t@.subrange(from as int, i + 1)));
        i = i + 1;
    }
    out
}

/// Where the line holding position `i` begins: after the last `\n` before it.
pub open spec fn line_begin(t: Seq<u8>, i: int) -> int
    decreases i,
{
    if i <= 0 { 0 } else if t[i - 1] == 0x0Au8 { i } else { line_begin(t, i - 1) }
}

/// Where the line holding position `i` ends: at the first `\n` from it on.
pub open spec fn line_finish(t: Seq<u8>, i: int) -> int
    decreases t.len() - i,
{
    if i >= t.len() { t.len() as int } else if t[i] == 0x0Au8 { i } else { line_finish(t, i + 1) }
}

proof fn lemma_line_begin(t: Seq<u8>, i: int)
    requires
        0 <= i,
    ensures
        0 <= line_begin(t, i) <= i,
    decreases i,
{
    if i > 0 && t[i - 1] != 0x0Au8 {
        lemma_line_begin(t, i - 1);
    }
}

proof fn lemma_line_finish(t: Seq<u8>, i: int)
    requires
        0 <= i <= t.len(),
    ensures
        i <= line_finish(t, i) <= t.len(),
    decreases t.len() - i,
{
    if i < t.len() && t[i] != 0x0Au8 {
        lemma_line_finish(t, i + 1);
    }
}

fn find_line_begin(t: &[u8], i: usize) -> (r: usize)
    requires
        i <= t@.len(),
    ensures
        r == line_begin(t@, i as int),
        r <= i,
{
    let mut k = i;
    while k > 0 && t[k - 1] != 0x0Au8
        invariant
            k <= i <= t@.len(),
            line_begin(t@, i as int) == line_begin(t@, k as int),
        decreases k,
    {
        k = k - 1;
    }
    k
}

fn find_line_finish(t: &[u8], i: usize) -> (r: usize)
    requires
        i <= t@.len(),
    ensures
        r == line_finish(t@, i as int),
        i <= r <= t@.len(),
{
    let mut k = i;
    while k < t.len() && t[k] != 0x0Au8
        invariant
            i <= k <= t@.len(),
            line_finish(t@, i as int) == line_finish(t@, k as int),
        decreases t.len() - k,
    {
        k = k + 1;
    }
    k
}

/// `s` without its `-`, `_` and `:` bytes.
pub open spec fn strip_joiners(s: Seq<u8>) -> Seq<u8>
    decreases s.len(),
{
    if s.len() == 0 {
        s
    } else {
        let prev = strip_joiners(s.drop_last());
        let b = s.last();
        if b == 0x2Du8 || b == 0x5Fu8 || b == 0x3Au8 { prev } else { prev.push(b) }
    }
}

fn stripped_range(t: &[u8], from: usize, to: usize) -> (r: Vec<u8>)
    requires
        from <= to <= t@.len(),
    ensures
        r@ == strip_joiners(t@.subrange(from as int, to as int)),
{
    let mut out: Vec<u8> = Vec::new();
    let mut i = from;
    assert(t@.subrange(from as int, from as int) =~= Seq::<u8>::empty());
    while i < to
        invariant
            from <= i <= to <= t@.len(),
            out@ == strip_joiners(t@.subrange(from as int, i as int)),
        decreases to - i,
    {
        assert(t@.subrange(from as int, i + 1).drop_last() =~= t@.subrange(from as int, i as int));
        let b = t[i];
        if !(b == 0x2Du8 || b == 0x5Fu8 || b == 0x3Au8) {
            out.push(b);
        }
        i = i + 1;
    }
    out
}

/// The phrases before a match that make its line a negated boundary statement.
pub open spec fn negation_marker(k: int) -> Seq<u8> {
    if k == 0 {
        seq![0x64u8, 0x6Fu8, 0x65u8, 0x73u8, 0x20u8, 0x6Eu8, 0x6Fu8, 0x74u8, 0x20u8]
    } else if k == 1 {
        seq![0x64u8, 0x6Fu8, 0x20u8, 0x6Eu8, 0x6Fu8, 0x74u8, 0x20u8]
    } else if k == 2 {
        seq![0x6Eu8, 0x6Fu8, 0x74u8, 0x20u8]
    } else if k == 3 {
        seq![0x6Eu8, 0x65u8, 0x76u8, 0x65u8, 0x72u8, 0x20u8]
    } else if k == 4 {
        seq![0x6Eu8, 0x6Fu8, 0x20u8]
    } else if k == 5 {
        seq![0x77u8, 0x69u8, 0x74u8, 0x68u8, 0x6Fu8, 0x75u8, 0x74u8, 0x20u8]
    } else if k == 6 {
        seq![0x63u8, 0x61u8, 0x6Eu8, 0x6Eu8, 0x6Fu8, 0x74u8, 0x20u8]
    } else if k == 7 {
        seq![0x63u8, 0x61u8, 0x6Eu8, 0x27u8, 0x74u8, 0x20u8]
    } else {
        seq![0x6Du8, 0x75u8, 0x73u8, 0x74u8, 0x20u8, 0x6Eu8, 0x6Fu8, 0x74u8, 0x20u8]
    }
}

fn negation_marker_bytes(k: usize) -> (r: Vec<u8>)
    requires
        k < 9,
    ensures
        r@ == negation_marker(k as int),
{
    let v = if k == 0 {
        vec![0x64u8, 0x6Fu8, 0x65u8, 0x73u8, 0x20u8, 0x6Eu8, 0x6Fu8, 0x74u8, 0x20u8]
    } else if k == 1 {
        vec![0x64u8, 0x6Fu8, 0x20u8, 0x6Eu8, 0x6Fu8, 0x74u8, 0x20u8]
    } else if k == 2 {
        vec![0x6Eu8, 0x6Fu8, 0x74u8, 0x20u8]
    } else if k == 3 {
        vec![0x6Eu8, 0x65u8, 0x76u8, 0x65u8, 0x72u8, 0x20u8]
    } else if k == 4 {
        vec![0x6Eu8, 0x6Fu8, 0x20u8]
    } else if k == 5 {
        vec![0x77u8, 0x69u8, 0x74u8, 0x68u8, 0x6Fu8, 0x75u8, 0x74u8, 0x20u8]
    } else if k == 6 {
        vec![0x63u8, 0x61u8, 0x6Eu8, 0x6Eu8, 0x6Fu8, 0x74u8, 0x20u8]
    } else if k == 7 {
        vec![0x63u8, 0x61u8, 0x6Eu8, 0x27u8, 0x74u8, 0x20u8]
    } else {
        vec![0x6Du8, 0x75u8, 0x73u8, 0x74u8, 0x20u8, 0x6Eu8, 0x6Fu8, 0x74u8, 0x20u8]
    };
    assert(v@ =~= negation_marker(k as int));
    v
}

pub open spec fn blocked_bytes() -> Seq<u8> {
    seq![0x62u8, 0x6Cu8, 0x6Fu8, 0x63u8, 0x6Bu8, 0x65u8, 0x64u8, 0x20u8]
}

fn blocked_bytes_vec() -> (r: Vec<u8>)
    ensures
        r@ == blocked_bytes(),
{
    let v = vec![0x62u8, 0x6Cu8, 0x6Fu8, 0x63u8, 0x6Bu8, 0x65u8, 0x64u8, 0x20u8];
    assert(v@ =~= blocked_bytes());
    v
}

pub open spec fn boundary_bytes() -> Seq<u8> {
    seq![0x20u8, 0x62u8, 0x6Fu8, 0x75u8, 0x6Eu8, 0x64u8, 0x61u8, 0x72u8, 0x79u8]
}

fn boundary_bytes_vec() -> (r: Vec<u8>)
    ensures
        r@ == boundary_bytes(),
{
    let v = vec![0x20u8, 0x62u8, 0x6Fu8, 0x75u8, 0x6Eu8, 0x64u8, 0x61u8, 0x72u8, 0x79u8];
    assert(v@ =~= boundary_bytes());
    v
}

pub open spec fn boundaries_bytes() -> Seq<u8> {
    seq![0x20u8, 0x62u8, 0x6Fu8, 0x75u8, 0x6Eu8, 0x64u8, 0x61u8, 0x72u8, 0x69u8, 0x65u8, 0x73u8]
}

fn boundaries_bytes_vec() -> (r: Vec<u8>)
    ensures
        r@ == boundaries_bytes(),
{
    let v = vec![0x20u8, 0x62u8, 0x6Fu8, 0x75u8, 0x6Eu8, 0x64u8, 0x61u8, 0x72u8, 0x69u8, 0x65u8, 0x73u8];
    assert(v@ =~= boundaries_bytes());
    v
}

pub open spec fn not_bytes() -> Seq<u8> {
    seq![0x6Eu8, 0x6Fu8, 0x74u8]
}

fn not_bytes_vec() -> (r: Vec<u8>)
    ensures
        r@ == not_bytes(),
{
    let v = vec![0x6Eu8, 0x6Fu8, 0x74u8];
    assert(v@ =~= not_bytes());
    v
}

pub open spec fn guarantee_bytes() -> Seq<u8> {
    seq![0x67u8, 0x75u8, 0x61u8, 0x72u8, 0x61u8, 0x6Eu8, 0x74u8, 0x65u8, 0x65u8]
}

fn guarantee_bytes_vec() -> (r: Vec<u8>)
    ensures
        r@ == guarantee_bytes(),
{
    let v = vec![0x67u8, 0x75u8, 0x61u8, 0x72u8, 0x61u8, 0x6Eu8, 0x74u8, 0x65u8, 0x65u8];
    assert(v@ =~= guarantee_bytes());
    v
}


/// Why a match is not reported: it names a typed boundary, or stands in a
/// negated boundary statement.
#[derive(Debug, Clone, Copy, PartialEq, Eq, Structural)]
pub enum WordingBoundaryException {
    TypedClaimBoundary,
    NegatedBoundaryStatement,
}

/// The token around the match, without joiners and in lower case, starts
/// with `not` and holds `guarantee` (as in `not-quality-guarantee`).
pub open spec fn typed_token(t: Seq<u8>, s: int, e: int) -> bool {
    let tok = lower_all(strip_joiners(t.subrange(token_start(t, s), token_end(t, e))));
    &&& tok.len() >= 3
    &&& tok.subrange(0, 3) == not_bytes()
    &&& bytes_infix(tok, guarantee_bytes())
}

/// The match's line says `blocked ` before it and ` boundary` or
/// ` boundaries` after it (in lower case).
pub open spec fn vocabulary_context(t: Seq<u8>, s: int, e: int) -> bool {
    let before = lower_all(t.subrange(line_begin(t, s), s));
    let after = lower_all(t.subrange(e, line_finish(t, e)));
    bytes_infix(before, blocked_bytes()) && (bytes_infix(after, boundary_bytes()) || bytes_infix(after, boundaries_bytes()))
}

/// The match's line, before it, holds a negation (in lower case).
pub open spec fn negated_context(t: Seq<u8>, s: int) -> bool {
    let before = lower_all(t.subrange(line_begin(t, s), s));
    exists|k: int| 0 <= k < 9 && bytes_infix(before, #[trigger] negation_marker(k))
}

/// The boundary exception of the match at `s..e`, if any.
pub open spec fn exception_of(t: Seq<u8>, s: int, e: int) -> Option<WordingBoundaryException> {
    if typed_token(t, s, e) || vocabulary_context(t, s, e) {
        Some(WordingBoundaryException::TypedClaimBoundary)
    } else if negated_context(t, s) {
        Some(WordingBoundaryException::NegatedBoundaryStatement)
    } else {
        None
    }
}

proof fn lemma_token_bounds(t: Seq<u8>, s: int, e: int)
    requires
        0 <= s <= e <= t.len(),
    ensures
        0 <= token_start(t, s) <= s,
        e <= token_end(t, e) <= t.len(),
    decreases s + (t.len() - e),
{
    if s > 0 && token_byte(t[s - 1]) {
        lemma_token_bounds(t, s - 1, e);
    } else if e < t.len() && token_byte(t[e]) {
        lemma_token_bounds(t, s, e + 1);
    }
}

fn is_typed_token(t: &[u8], s: usize, e: usize) -> (r: bool)
    requires
        s <= e <= t@.len(),
    ensures
        r == typed_token(t@, s as int, e as int),
{
    proof { lemma_token_bounds(t@, s as int, e as int); }
    let ts = scan_token_start(t, s);
    let te = scan_token_end(t, e);
    let stripped = stripped_range(t, ts, te);
    let tok = lower_range(stripped.as_slice(), 0, stripped.len());
    assert(stripped@.subrange(0, stripped@.len() as int) =~= stripped@);
    if tok.len() < 3 {
        return false;
    }
    let not = not_bytes_vec();
    let head = tok[0] == not[0] && tok[1] == not[1] && tok[2] == not[2];
    assert(head == (tok@.subrange(0, 3) == not_bytes())) by {
        if head {
            assert(tok@.subrange(0, 3) =~= not_bytes());
        }
    }
    let g = guarantee_bytes_vec();
    head && contains_bytes(tok.as_slice(), g.as_slice())
}

fn in_vocabulary_context(t: &[u8], s: usize, e: usize) -> (r: bool)
    requires
        s <= e <= t@.len(),
    ensures
        r == vocabulary_context(t@, s as int, e as int),
{
    let b = find_line_begin(t, s);
    let f = find_line_finish(t, e);
    let before = lower_range(t, b, s);
    let after = lower_range(t, e, f);
    let blocked = blocked_bytes_vec();
    let boundary = boundary_bytes_vec();
    let boundaries = boundaries_bytes_vec();
    contains_bytes(before.as_slice(), blocked.as_slice())
        && (contains_bytes(after.as_slice(), boundary.as_slice()) || contains_bytes(after.as_slice(), boundaries.as_slice()))
}

fn in_negated_context(t: &[u8], s: usize) -> (r: bool)
    requires
        s <= t@.len(),
    ensures
        r == negated_context(t@, s as int),
{
    let b = find_line_begin(t, s);
    let before = lower_range(t, b, s);
    let mut k: usize = 0;
    while k < 9
        invariant
            k <= 9,
            before@ == lower_all(t@.subrange(b as int, s as int)),
            b == line_begin(t@, s as int),
            forall|j: int| 0 <= j < k ==> !bytes_infix(before@, #[trigger] negation_marker(j)),
        decreases 9 - k,
    {
        let marker = negation_marker_bytes(k);
        if contains_bytes(before.as_slice(), marker.as_slice()) {
            return true;
        }
        k = k + 1;
    }
    false
}

/// `exception_of(t, start, end)`: a typed boundary token or vocabulary
/// first, then a negated statement.
pub fn boundary_exception(t: &[u8], start: usize, end: usize) -> (r: Option<WordingBoundaryException>)
    requires
        start <= end <= t@.len(),
    ensures
        r == exception_of(t@, start as int, end as int),
{
    if is_typed_token(t, start, end) {
        return Some(WordingBoundaryException::TypedClaimBoundary);
    }
    if in_vocabulary_context(t, start, end) {
        return Some(WordingBoundaryException::TypedClaimBoundary);
    }
    if in_negated_context(t, start) {
        return Some(WordingBoundaryException::NegatedBoundaryStatement);
    }
    None
}


/// The overclaim a rule names.
#[derive(Debug, Clone, Copy, PartialEq, Eq, Structural)]
pub enum WordingRuleKind {
    PopularityGuarantee,
    TrustGuarantee,
    SecurityGuarantee,
    QualityGuarantee,
    LegalFitnessGuarantee,
    LegalAdvice,
    MaintenanceGuarantee,
    RuntimeVerification,
    PublicationReadiness,
    ProductionReadiness,
    AutomaticPolicyAdoption,
    AutomaticWeightAdoption,
    GenericGuarantee,
}

/// The claim boundary a rule points to.
#[derive(Debug, Clone, Copy, PartialEq, Eq, Structural)]
pub enum ClaimBoundaryKind {
    NotPopularityGuarantee,
    NotTrustGuarantee,
    NotSecurityGuarantee,
    NotQualityGuarantee,
    NotLegalFitnessGuarantee,
    NotLegalAdvice,
    NotMaintenanceGuarantee,
    NotRuntimeVerification,
    NotPublicationReadiness,
    NotProductionReadiness,
    NotAutomaticPolicyAdoption,
    NotAutomaticWeightAdoption,
}

/// The number of wording rules.
pub open spec fn rule_count() -> int {
    25
}

/// The phrase of rule `r`, in ASCII bytes.
pub open spec fn rule_phrase(r: int) -> Seq<u8> {
    if r == 0 {
        seq![0x67u8, 0x75u8, 0x61u8, 0x72u8, 0x61u8, 0x6Eu8, 0x74u8, 0x65u8, 0x65u8, 0x73u8, 0x20u8, 0x70u8, 0x6Fu8, 0x70u8, 0x75u8, 0x6Cu8, 0x61u8, 0x72u8, 0x69u8, 0x74u8, 0x79u8]
    } else if r == 1 {
        seq![0x70u8, 0x6Fu8, 0x70u8, 0x75u8, 0x6Cu8, 0x61u8, 0x72u8, 0x69u8, 0x74u8, 0x79u8, 0x20u8, 0x67u8, 0x75u8, 0x61u8, 0x72u8, 0x61u8, 0x6Eu8, 0x74u8, 0x65u8, 0x65u8]
    } else if r == 2 {
        seq![0x67u8, 0x75u8, 0x61u8, 0x72u8, 0x61u8, 0x6Eu8, 0x74u8, 0x65u8, 0x65u8, 0x73u8, 0x20u8, 0x74u8, 0x72u8, 0x75u8, 0x73u8, 0x74u8]
    } else if r == 3 {
        seq![0x74u8, 0x72u8, 0x75u8, 0x73u8, 0x74u8, 0x20u8, 0x67u8, 0x75u8, 0x61u8, 0x72u8, 0x61u8, 0x6Eu8, 0x74u8, 0x65u8, 0x65u8]
    } else if r == 4 {
        seq![0x67u8, 0x75u8, 0x61u8, 0x72u8, 0x61u8, 0x6Eu8, 0x74u8, 0x65u8, 0x65u8, 0x73u8, 0x20u8, 0x73u8, 0x65u8, 0x63u8, 0x75u8, 0x72u8, 0x69u8, 0x74u8, 0x79u8]
    } else if r == 5 {
        seq![0x73u8, 0x65u8, 0x63u8, 0x75u8, 0x72u8, 0x69u8, 0x74u8, 0x79u8, 0x20u8, 0x67u8, 0x75u8, 0x61u8, 0x72u8, 0x61u8, 0x6Eu8, 0x74u8, 0x65u8, 0x65u8]
    } else if r == 6 {
        seq![0x67u8, 0x75u8, 0x61u8, 0x72u8, 0x61u8, 0x6Eu8, 0x74u8, 0x65u8, 0x65u8, 0x73u8, 0x20u8, 0x71u8, 0x75u8, 0x61u8, 0x6Cu8, 0x69u8, 0x74u8, 0x79u8]
    } else if r == 7 {
        seq![0x71u8, 0x75u8, 0x61u8, 0x6Cu8, 0x69u8, 0x74u8, 0x79u8, 0x20u8, 0x67u8, 0x75u8, 0x61u8, 0x72u8, 0x61u8, 0x6Eu8, 0x74u8, 0x65u8, 0x65u8]
    } else if r == 8 {
        seq![0x6Cu8, 0x65u8, 0x67u8, 0x61u8, 0x6Cu8, 0x6Cu8, 0x79u8, 0x20u8, 0x63u8, 0x6Fu8, 0x6Du8, 0x70u8, 0x6Cu8, 0x69u8, 0x61u8, 0x6Eu8, 0x74u8]
    } else if r == 9 {
        seq![0x6Cu8, 0x65u8, 0x67u8, 0x61u8, 0x6Cu8, 0x20u8, 0x66u8, 0x69u8, 0x74u8, 0x6Eu8, 0x65u8, 0x73u8, 0x73u8]
    } else if r == 10 {
        seq![0x6Cu8, 0x65u8, 0x67u8, 0x61u8, 0x6Cu8, 0x20u8, 0x61u8, 0x64u8, 0x76u8, 0x69u8, 0x63u8, 0x65u8]
    } else if r == 11 {
        seq![0x67u8, 0x75u8, 0x61u8, 0x72u8, 0x61u8, 0x6Eu8, 0x74u8, 0x65u8, 0x65u8, 0x73u8, 0x20u8, 0x6Du8, 0x61u8, 0x69u8, 0x6Eu8, 0x74u8, 0x65u8, 0x6Eu8, 0x61u8, 0x6Eu8, 0x63u8, 0x65u8]
    } else if r == 12 {
        seq![0x6Du8, 0x61u8, 0x69u8, 0x6Eu8, 0x74u8, 0x65u8, 0x6Eu8, 0x61u8, 0x6Eu8, 0x63u8, 0x65u8, 0x20u8, 0x67u8, 0x75u8, 0x61u8, 0x72u8, 0x61u8, 0x6Eu8, 0x74u8, 0x65u8, 0x65u8]
    } else if r == 13 {
        seq![0x72u8, 0x75u8, 0x6Eu8, 0x74u8, 0x69u8, 0x6Du8, 0x65u8, 0x20u8, 0x76u8, 0x65u8, 0x72u8, 0x69u8, 0x66u8, 0x69u8, 0x65u8, 0x64u8]
    } else if r == 14 {
        seq![0x72u8, 0x75u8, 0x6Eu8, 0x74u8, 0x69u8, 0x6Du8, 0x65u8, 0x20u8, 0x76u8, 0x65u8, 0x72u8, 0x69u8, 0x66u8, 0x69u8, 0x63u8, 0x61u8, 0x74u8, 0x69u8, 0x6Fu8, 0x6Eu8]
    } else if r == 15 {
        seq![0x70u8, 0x75u8, 0x62u8, 0x6Cu8, 0x69u8, 0x63u8, 0x61u8, 0x74u8, 0x69u8, 0x6Fu8, 0x6Eu8, 0x20u8, 0x72u8, 0x65u8, 0x61u8, 0x64u8, 0x79u8]
    } else if r == 16 {
        seq![0x70u8, 0x72u8, 0x6Fu8, 0x64u8, 0x75u8, 0x63u8, 0x74u8, 0x69u8, 0x6Fu8, 0x6Eu8, 0x20u8, 0x72u8, 0x65u8, 0x61u8, 0x64u8, 0x79u8]
    } else if r == 17 {
        seq![0x70u8, 0x72u8, 0x6Fu8, 0x64u8, 0x75u8, 0x63u8, 0x74u8, 0x69u8, 0x6Fu8, 0x6Eu8, 0x2Du8, 0x72u8, 0x65u8, 0x61u8, 0x64u8, 0x79u8]
    } else if r == 18 {
        seq![0x61u8, 0x75u8, 0x74u8, 0x6Fu8, 0x6Du8, 0x61u8, 0x74u8, 0x69u8, 0x63u8, 0x61u8, 0x6Cu8, 0x6Cu8, 0x79u8, 0x20u8, 0x61u8, 0x64u8, 0x6Fu8, 0x70u8, 0x74u8, 0x73u8, 0x20u8, 0x70u8, 0x6Fu8, 0x6Cu8, 0x69u8, 0x63u8, 0x69u8, 0x65u8, 0x73u8]
    } else if r == 19 {
        seq![0x61u8, 0x75u8, 0x74u8, 0x6Fu8, 0x6Du8, 0x61u8, 0x74u8, 0x69u8, 0x63u8, 0x61u8, 0x6Cu8, 0x6Cu8, 0x79u8, 0x20u8, 0x61u8, 0x64u8, 0x6Fu8, 0x70u8, 0x74u8, 0x20u8, 0x70u8, 0x6Fu8, 0x6Cu8, 0x69u8, 0x63u8, 0x69u8, 0x65u8, 0x73u8]
    } else if r == 20 {
        seq![0x61u8, 0x75u8, 0x74u8, 0x6Fu8, 0x6Du8, 0x61u8, 0x74u8, 0x69u8, 0x63u8, 0x61u8, 0x6Cu8, 0x6Cu8, 0x79u8, 0x20u8, 0x61u8, 0x64u8, 0x6Fu8, 0x70u8, 0x74u8, 0x73u8, 0x20u8, 0x77u8, 0x65u8, 0x69u8, 0x67u8, 0x68u8, 0x74u8, 0x73u8]
    } else if r == 21 {
        seq![0x61u8, 0x75u8, 0x74u8, 0x6Fu8, 0x6Du8, 0x61u8, 0x74u8, 0x69u8, 0x63u8, 0x61u8, 0x6Cu8, 0x6Cu8, 0x79u8, 0x20u8, 0x61u8, 0x64u8, 0x6Fu8, 0x70u8, 0x74u8, 0x20u8, 0x77u8, 0x65u8, 0x69u8, 0x67u8, 0x68u8, 0x74u8, 0x73u8]
    } else if r == 22 {
        seq![0x67u8, 0x75u8, 0x61u8, 0x72u8, 0x61u8, 0x6Eu8, 0x74u8, 0x65u8, 0x65u8, 0x64u8]
    } else if r == 23 {
        seq![0x67u8, 0x75u8, 0x61u8, 0x72u8, 0x61u8, 0x6Eu8, 0x74u8, 0x65u8, 0x65u8, 0x73u8]
    } else {
        seq![0x67u8, 0x75u8, 0x61u8, 0x72u8, 0x61u8, 0x6Eu8, 0x74u8, 0x65u8, 0x65u8]
    }
}

fn rule_phrase_bytes(r: usize) -> (v: Vec<u8>)
    requires
        r < 25,
    ensures
        v@ == rule_phrase(r as int),
{
    let v = if r == 0 {
        vec![0x67u8, 0x75u8, 0x61u8, 0x72u8, 0x61u8, 0x6Eu8, 0x74u8, 0x65u8, 0x65u8, 0x73u8, 0x20u8, 0x70u8, 0x6Fu8, 0x70u8, 0x75u8, 0x6Cu8, 0x61u8, 0x72u8, 0x69u8, 0x74u8, 0x79u8]
    } else if r == 1 {
        vec![0x70u8, 0x6Fu8, 0x70u8, 0x75u8, 0x6Cu8, 0x61u8, 0x72u8, 0x69u8, 0x74u8, 0x79u8, 0x20u8, 0x67u8, 0x75u8, 0x61u8, 0x72u8, 0x61u8, 0x6Eu8, 0x74u8, 0x65u8, 0x65u8]
    } else if r == 2 {
        vec![0x67u8, 0x75u8, 0x61u8, 0x72u8, 0x61u8, 0x6Eu8, 0x74u8, 0x65u8, 0x65u8, 0x73u8, 0x20u8, 0x74u8, 0x72u8, 0x75u8, 0x73u8, 0x74u8]
    } else if r == 3 {
        vec![0x74u8, 0x72u8, 0x75u8, 0x73u8, 0x74u8, 0x20u8, 0x67u8, 0x75u8, 0x61u8, 0x72u8, 0x61u8, 0x6Eu8, 0x74u8, 0x65u8, 0x65u8]
    } else if r == 4 {
        vec![0x67u8, 0x75u8, 0x61u8, 0x72u8, 0x61u8, 0x6Eu8, 0x74u8, 0x65u8, 0x65u8, 0x73u8, 0x20u8, 0x73u8, 0x65u8, 0x63u8, 0x75u8, 0x72u8, 0x69u8, 0x74u8, 0x79u8]
    } else if r == 5 {
        vec![0x73u8, 0x65u8, 0x63u8, 0x75u8, 0x72u8, 0x69u8, 0x74u8, 0x79u8, 0x20u8, 0x67u8, 0x75u8, 0x61u8, 0x72u8, 0x61u8, 0x6Eu8, 0x74u8, 0x65u8, 0x65u8]
    } else if r == 6 {
        vec![0x67u8, 0x75u8, 0x61u8, 0x72u8, 0x61u8, 0x6Eu8, 0x74u8, 0x65u8, 0x65u8, 0x73u8, 0x20u8, 0x71u8, 0x75u8, 0x61u8, 0x6Cu8, 0x69u8, 0x74u8, 0x79u8]
    } else if r == 7 {
        vec![0x71u8, 0x75u8, 0x61u8, 0x6Cu8, 0x69u8, 0x74u8, 0x79u8, 0x20u8, 0x67u8, 0x75u8, 0x61u8, 0x72u8, 0x61u8, 0x6Eu8, 0x74u8, 0x65u8, 0x65u8]
    } else if r == 8 {
        vec![0x6Cu8, 0x65u8, 0x67u8, 0x61u8, 0x6Cu8, 0x6Cu8, 0x79u8, 0x20u8, 0x63u8, 0x6Fu8, 0x6Du8, 0x70u8, 0x6Cu8, 0x69u8, 0x61u8, 0x6Eu8, 0x74u8]
    } else if r == 9 {
        vec![0x6Cu8, 0x65u8, 0x67u8, 0x61u8, 0x6Cu8, 0x20u8, 0x66u8, 0x69u8, 0x74u8, 0x6Eu8, 0x65u8, 0x73u8, 0x73u8]
    } else if r == 10 {
        vec![0x6Cu8, 0x65u8, 0x67u8, 0x61u8, 0x6Cu8, 0x20u8, 0x61u8, 0x64u8, 0x76u8, 0x69u8, 0x63u8, 0x65u8]
    } else if r == 11 {
        vec![0x67u8, 0x75u8, 0x61u8, 0x72u8, 0x61u8, 0x6Eu8, 0x74u8, 0x65u8, 0x65u8, 0x73u8, 0x20u8, 0x6Du8, 0x61u8, 0x69u8, 0x6Eu8, 0x74u8, 0x65u8, 0x6Eu8, 0x61u8, 0x6Eu8, 0x63u8, 0x65u8]
    } else if r == 12 {
        vec![0x6Du8, 0x61u8, 0x69u8, 0x6Eu8, 0x74u8, 0x65u8, 0x6Eu8, 0x61u8, 0x6Eu8, 0x63u8, 0x65u8, 0x20u8, 0x67u8, 0x75u8, 0x61u8, 0x72u8, 0x61u8, 0x6Eu8, 0x74u8, 0x65u8, 0x65u8]
    } else if r == 13 {
        vec![0x72u8, 0x75u8, 0x6Eu8, 0x74u8, 0x69u8, 0x6Du8, 0x65u8, 0x20u8, 0x76u8, 0x65u8, 0x72u8, 0x69u8, 0x66u8, 0x69u8, 0x65u8, 0x64u8]
    } else if r == 14 {
        vec![0x72u8, 0x75u8, 0x6Eu8, 0x74u8, 0x69u8, 0x6Du8, 0x65u8, 0x20u8, 0x76u8, 0x65u8, 0x72u8, 0x69u8, 0x66u8, 0x69u8, 0x63u8, 0x61u8, 0x74u8, 0x69u8, 0x6Fu8, 0x6Eu8]
    } else if r == 15 {
        vec![0x70u8, 0x75u8, 0x62u8, 0x6Cu8, 0x69u8, 0x63u8, 0x61u8, 0x74u8, 0x69u8, 0x6Fu8, 0x6Eu8, 0x20u8, 0x72u8, 0x65u8, 0x61u8, 0x64u8, 0x79u8]
    } else if r == 16 {
        vec![0x70u8, 0x72u8, 0x6Fu8, 0x64u8, 0x75u8, 0x63u8, 0x74u8, 0x69u8, 0x6Fu8, 0x6Eu8, 0x20u8, 0x72u8, 0x65u8, 0x61u8, 0x64u8, 0x79u8]
    } else if r == 17 {
        vec![0x70u8, 0x72u8, 0x6Fu8, 0x64u8, 0x75u8, 0x63u8, 0x74u8, 0x69u8, 0x6Fu8, 0x6Eu8, 0x2Du8, 0x72u8, 0x65u8, 0x61u8, 0x64u8, 0x79u8]
    } else if r == 18 {
        vec![0x61u8, 0x75u8, 0x74u8, 0x6Fu8, 0x6Du8, 0x61u8, 0x74u8, 0x69u8, 0x63u8, 0x61u8, 0x6Cu8, 0x6Cu8, 0x79u8, 0x20u8, 0x61u8, 0x64u8, 0x6Fu8, 0x70u8, 0x74u8, 0x73u8, 0x20u8, 0x70u8, 0x6Fu8, 0x6Cu8, 0x69u8, 0x63u8, 0x69u8, 0x65u8, 0x73u8]
    } else if r == 19 {
        vec![0x61u8, 0x75u8, 0x74u8, 0x6Fu8, 0x6Du8, 0x61u8, 0x74u8, 0x69u8, 0x63u8, 0x61u8, 0x6Cu8, 0x6Cu8, 0x79u8, 0x20u8, 0x61u8, 0x64u8, 0x6Fu8, 0x70u8, 0x74u8, 0x20u8, 0x70u8, 0x6Fu8, 0x6Cu8, 0x69u8, 0x63u8, 0x69u8, 0x65u8, 0x73u8]
    } else if r == 20 {
        vec![0x61u8, 0x75u8, 0x74u8, 0x6Fu8, 0x6Du8, 0x61u8, 0x74u8, 0x69u8, 0x63u8, 0x61u8, 0x6Cu8, 0x6Cu8, 0x79u8, 0x20u8, 0x61u8, 0x64u8, 0x6Fu8, 0x70u8, 0x74u8, 0x73u8, 0x20u8, 0x77u8, 0x65u8, 0x69u8, 0x67u8, 0x68u8, 0x74u8, 0x73u8]
    } else if r == 21 {
        vec![0x61u8, 0x75u8, 0x74u8, 0x6Fu8, 0x6Du8, 0x61u8, 0x74u8, 0x69u8, 0x63u8, 0x61u8, 0x6Cu8, 0x6Cu8, 0x79u8, 0x20u8, 0x61u8, 0x64u8, 0x6Fu8, 0x70u8, 0x74u8, 0x20u8, 0x77u8, 0x65u8, 0x69u8, 0x67u8, 0x68u8, 0x74u8, 0x73u8]
    } else if r == 22 {
        vec![0x67u8, 0x75u8, 0x61u8, 0x72u8, 0x61u8, 0x6Eu8, 0x74u8, 0x65u8, 0x65u8, 0x64u8]
    } else if r == 23 {
        vec![0x67u8, 0x75u8, 0x61u8, 0x72u8, 0x61u8, 0x6Eu8, 0x74u8, 0x65u8, 0x65u8, 0x73u8]
    } else {
        vec![0x67u8, 0x75u8, 0x61u8, 0x72u8, 0x61u8, 0x6Eu8, 0x74u8, 0x65u8, 0x65u8]
    };
    assert(v@ =~= rule_phrase(r as int));
    v
}

/// The overclaim and the boundary of rule `r`.
pub open spec fn rule_meaning(r: int) -> (WordingRuleKind, ClaimBoundaryKind) {
    if r == 0 {
        (WordingRuleKind::PopularityGuarantee, ClaimBoundaryKind::NotPopularityGuarantee)
    } else if r == 1 {
        (WordingRuleKind::PopularityGuarantee, ClaimBoundaryKind::NotPopularityGuarantee)
    } else if r == 2 {
        (WordingRuleKind::TrustGuarantee, ClaimBoundaryKind::NotTrustGuarantee)
    } else if r == 3 {
        (WordingRuleKind::TrustGuarantee, ClaimBoundaryKind::NotTrustGuarantee)
    } else if r == 4 {
        (WordingRuleKind::SecurityGuarantee, ClaimBoundaryKind::NotSecurityGuarantee)
    } else if r == 5 {
        (WordingRuleKind::SecurityGuarantee, ClaimBoundaryKind::NotSecurityGuarantee)
    } else if r == 6 {
        (WordingRuleKind::QualityGuarantee, ClaimBoundaryKind::NotQualityGuarantee)
    } else if r == 7 {
        (WordingRuleKind::QualityGuarantee, ClaimBoundaryKind::NotQualityGuarantee)
    } else if r == 8 {
        (WordingRuleKind::LegalFitnessGuarantee, ClaimBoundaryKind::NotLegalFitnessGuarantee)
    } else if r == 9 {
        (WordingRuleKind::LegalFitnessGuarantee, ClaimBoundaryKind::NotLegalFitnessGuarantee)
    } else if r == 10 {
        (WordingRuleKind::LegalAdvice, ClaimBoundaryKind::NotLegalAdvice)
    } else if r == 11 {
        (WordingRuleKind::MaintenanceGuarantee, ClaimBoundaryKind::NotMaintenanceGuarantee)
    } else if r == 12 {
        (WordingRuleKind::MaintenanceGuarantee, ClaimBoundaryKind::NotMaintenanceGuarantee)
    } else if r == 13 {
        (WordingRuleKind::RuntimeVerification, ClaimBoundaryKind::NotRuntimeVerification)
    } else if r == 14 {
        (WordingRuleKind::RuntimeVerification, ClaimBoundaryKind::NotRuntimeVerification)
    } else if r == 15 {
        (WordingRuleKind::PublicationReadiness, ClaimBoundaryKind::NotPublicationReadiness)
    } else if r == 16 {
        (WordingRuleKind::ProductionReadiness, ClaimBoundaryKind::NotProductionReadiness)
    } else if r == 17 {
        (WordingRuleKind::ProductionReadiness, ClaimBoundaryKind::NotProductionReadiness)
    } else if r == 18 {
        (WordingRuleKind::AutomaticPolicyAdoption, ClaimBoundaryKind::NotAutomaticPolicyAdoption)
    } else if r == 19 {
        (WordingRuleKind::AutomaticPolicyAdoption, ClaimBoundaryKind::NotAutomaticPolicyAdoption)
    } else if r == 20 {
        (WordingRuleKind::AutomaticWeightAdoption, ClaimBoundaryKind::NotAutomaticWeightAdoption)
    } else if r == 21 {
        (WordingRuleKind::AutomaticWeightAdoption, ClaimBoundaryKind::NotAutomaticWeightAdoption)
    } else if r == 22 {
        (WordingRuleKind::GenericGuarantee, ClaimBoundaryKind::NotQualityGuarantee)
    } else if r == 23 {
        (WordingRuleKind::GenericGuarantee, ClaimBoundaryKind::NotQualityGuarantee)
    } else {
        (WordingRuleKind::GenericGuarantee, ClaimBoundaryKind::NotQualityGuarantee)
    }
}

pub fn rule_meaning_of(r: usize) -> (m: (WordingRuleKind, ClaimBoundaryKind))
    ensures
        m == rule_meaning(r as int),
{
    if r == 0 {
        (WordingRuleKind::PopularityGuarantee, ClaimBoundaryKind::NotPopularityGuarantee)
    } else if r == 1 {
        (WordingRuleKind::PopularityGuarantee, ClaimBoundaryKind::NotPopularityGuarantee)
    } else if r == 2 {
        (WordingRuleKind::TrustGuarantee, ClaimBoundaryKind::NotTrustGuarantee)
    } else if r == 3 {
        (WordingRuleKind::TrustGuarantee, ClaimBoundaryKind::NotTrustGuarantee)
    } else if r == 4 {
        (WordingRuleKind::SecurityGuarantee, ClaimBoundaryKind::NotSecurityGuarantee)
    } else if r == 5 {
        (WordingRuleKind::SecurityGuarantee, ClaimBoundaryKind::NotSecurityGuarantee)
    } else if r == 6 {
        (WordingRuleKind::QualityGuarantee, ClaimBoundaryKind::NotQualityGuarantee)
    } else if r == 7 {
        (WordingRuleKind::QualityGuarantee, ClaimBoundaryKind::NotQualityGuarantee)
    } else if r == 8 {
        (WordingRuleKind::LegalFitnessGuarantee, ClaimBoundaryKind::NotLegalFitnessGuarantee)
    } else if r == 9 {
        (WordingRuleKind::LegalFitnessGuarantee, ClaimBoundaryKind::NotLegalFitnessGuarantee)
    } else if r == 10 {
        (WordingRuleKind::LegalAdvice, ClaimBoundaryKind::NotLegalAdvice)
    } else if r == 11 {
        (WordingRuleKind::MaintenanceGuarantee, ClaimBoundaryKind::NotMaintenanceGuarantee)
    } else if r == 12 {
        (WordingRuleKind::MaintenanceGuarantee, ClaimBoundaryKind::NotMaintenanceGuarantee)
    } else if r == 13 {
        (WordingRuleKind::RuntimeVerification, ClaimBoundaryKind::NotRuntimeVerification)
    } else if r == 14 {
        (WordingRuleKind::RuntimeVerification, ClaimBoundaryKind::NotRuntimeVerification)
    } else if r == 15 {
        (WordingRuleKind::PublicationReadiness, ClaimBoundaryKind::NotPublicationReadiness)
    } else if r == 16 {
        (WordingRuleKind::ProductionReadiness, ClaimBoundaryKind::NotProductionReadiness)
    } else if r == 17 {
        (WordingRuleKind::ProductionReadiness, ClaimBoundaryKind::NotProductionReadiness)
    } else if r == 18 {
        (WordingRuleKind::AutomaticPolicyAdoption, ClaimBoundaryKind::NotAutomaticPolicyAdoption)
    } else if r == 19 {
        (WordingRuleKind::AutomaticPolicyAdoption, ClaimBoundaryKind::NotAutomaticPolicyAdoption)
    } else if r == 20 {
        (WordingRuleKind::AutomaticWeightAdoption, ClaimBoundaryKind::NotAutomaticWeightAdoption)
    } else if r == 21 {
        (WordingRuleKind::AutomaticWeightAdoption, ClaimBoundaryKind::NotAutomaticWeightAdoption)
    } else if r == 22 {
        (WordingRuleKind::GenericGuarantee, ClaimBoundaryKind::NotQualityGuarantee)
    } else if r == 23 {
        (WordingRuleKind::GenericGuarantee, ClaimBoundaryKind::NotQualityGuarantee)
    } else {
        (WordingRuleKind::GenericGuarantee, ClaimBoundaryKind::NotQualityGuarantee)
    }
}

/// The rules in the order their matches at one start are taken: longer
/// phrases first, then by rule number.
pub open spec fn visit_order() -> Seq<int> {
    seq![18, 19, 20, 21, 11, 0, 12, 1, 14, 4, 5, 6, 7, 8, 15, 2, 13, 16, 17, 3, 9, 10, 22, 23, 24]
}

fn visit_order_vec() -> (v: Vec<usize>)
    ensures
        v@.len() == visit_order().len(),
        forall|i: int| 0 <= i < v@.len() ==> v@[i] as int == #[trigger] visit_order()[i],
{
    let v: Vec<usize> = vec![18, 19, 20, 21, 11, 0, 12, 1, 14, 4, 5, 6, 7, 8, 15, 2, 13, 16, 17, 3, 9, 10, 22, 23, 24];
    v
}

/// The matches at start `s` of the first `j` rules of the visiting order.
pub open spec fn matches_at(t: Seq<u8>, s: int, j: int) -> Seq<(usize, usize, usize)>
    decreases j,
{
    if j <= 0 {
        Seq::empty()
    } else {
        let prev = matches_at(t, s, j - 1);
        let r = visit_order()[j - 1];
        if phrase_at(t, rule_phrase(r), s) {
            prev.push((s as usize, (s + rule_phrase(r).len()) as usize, r as usize))
        } else {
            prev
        }
    }
}

/// Every match of a rule's phrase with a start below `k`: by start, then
/// longer phrases first, then by rule (the visiting order).
pub open spec fn ordered_matches(t: Seq<u8>, k: int) -> Seq<(usize, usize, usize)>
    decreases k,
{
    if k <= 0 {
        Seq::empty()
    } else {
        ordered_matches(t, k - 1) + matches_at(t, k - 1, rule_count())
    }
}

/// A match `(start, end, rule)` lies in the text.
pub open spec fn in_text(t: Seq<u8>, m: (usize, usize, usize)) -> bool {
    m.0 <= m.1 <= t.len() && m.2 < rule_count()
}

proof fn lemma_order_entries()
    ensures
        visit_order().len() == rule_count(),
        forall|i: int| 0 <= i < visit_order().len() ==> 0 <= #[trigger] visit_order()[i] < rule_count(),
{
    let o = visit_order();
    assert(o.len() == 25);
    assert forall|i: int| 0 <= i < o.len() implies 0 <= #[trigger] o[i] < rule_count() by {
        assert(o[i] == seq![18int, 19, 20, 21, 11, 0, 12, 1, 14, 4, 5, 6, 7, 8, 15, 2, 13, 16, 17, 3, 9, 10, 22, 23, 24][i]);
    }
}

proof fn lemma_matches_at_in_text(t: Seq<u8>, s: int, j: int)
    requires
        0 <= s,
        0 <= j <= rule_count(),
        t.len() <= usize::MAX,
    ensures
        forall|i: int| 0 <= i < matches_at(t, s, j).len() ==> in_text(t, #[trigger] matches_at(t, s, j)[i]),
    decreases j,
{
    if j > 0 {
        lemma_matches_at_in_text(t, s, j - 1);
        lemma_order_entries();
        let r = visit_order()[j - 1];
        assert(0 <= r < rule_count());
        let prev = matches_at(t, s, j - 1);
        if phrase_at(t, rule_phrase(r), s) {
            let x = (s as usize, (s + rule_phrase(r).len()) as usize, r as usize);
            assert(s + rule_phrase(r).len() <= t.len());
            assert(in_text(t, x));
            assert(matches_at(t, s, j) == prev.push(x));
            assert forall|i: int| 0 <= i < prev.push(x).len() implies in_text(t, #[trigger] prev.push(x)[i]) by {
                if i < prev.len() {
                    assert(prev.push(x)[i] == prev[i]);
                }
            }
        }
    }
}

proof fn lemma_ordered_in_text(t: Seq<u8>, k: int)
    requires
        0 <= k,
        t.len() <= usize::MAX,
    ensures
        forall|i: int| 0 <= i < ordered_matches(t, k).len() ==> in_text(t, #[trigger] ordered_matches(t, k)[i]),
    decreases k,
{
    if k > 0 {
        lemma_ordered_in_text(t, k - 1);
        lemma_matches_at_in_text(t, k - 1, rule_count());
        let a = ordered_matches(t, k - 1);
        let b = matches_at(t, k - 1, rule_count());
        assert forall|i: int| 0 <= i < (a + b).len() implies in_text(t, #[trigger] (a + b)[i]) by {
            if i < a.len() {
                assert((a + b)[i] == a[i]);
            } else {
                assert((a + b)[i] == b[i - a.len()]);
            }
        }
    }
}

/// `ordered_matches` over the whole text.
pub fn raw_matches(t: &[u8]) -> (r: Vec<(usize, usize, usize)>)
    ensures
        r@ == ordered_matches(t@, t@.len() as int),
{
    let n = t.len();
    let order = visit_order_vec();
    proof { lemma_order_entries(); }
    let mut out: Vec<(usize, usize, usize)> = Vec::new();
    let mut s: usize = 0;
    while s < n
        invariant
            n == t@.len(),
            s <= n,
            order@.len() == rule_count(),
            forall|i: int| 0 <= i < order@.len() ==> order@[i] as int == #[trigger] visit_order()[i],
            forall|i: int| 0 <= i < visit_order().len() ==> 0 <= #[trigger] visit_order()[i] < rule_count(),
            out@ == ordered_matches(t@, s as int),
        decreases n - s,
    {
        let ghost base = out@;
        let mut j: usize = 0;
        while j < order.len()
            invariant
                n == t@.len(),
                s < n,
                j <= order@.len(),
                order@.len() == rule_count(),
                forall|i: int| 0 <= i < order@.len() ==> order@[i] as int == #[trigger] visit_order()[i],
                forall|i: int| 0 <= i < visit_order().len() ==> 0 <= #[trigger] visit_order()[i] < rule_count(),
                out@ == base + matches_at(t@, s as int, j as int),
            decreases order.len() - j,
        {
            let r = order[j];
            assert(r as int == visit_order()[j as int]);
            let phrase = rule_phrase_bytes(r);
            let ghost before = out@;
            if phrase.len() <= n - s {
                let end = s + phrase.len();
                if is_word_boundary(t, s, end) && same_at(t, phrase.as_slice(), s) {
                    out.push((s, end, r));
                }
            }
            assert(out@ =~= base + matches_at(t@, s as int, j + 1));
            j = j + 1;
        }
        s = s + 1;
    }
    out
}

pub open spec fn match_spans(m: Seq<(usize, usize, usize)>) -> Seq<(usize, usize)> {
    m.map_values(|x: (usize, usize, usize)| (x.0, x.1))
}

pub open spec fn match_exceptions(t: Seq<u8>, m: Seq<(usize, usize, usize)>) -> Seq<bool> {
    m.map_values(|x: (usize, usize, usize)| exception_of(t, x.0 as int, x.1 as int) is Some)
}

/// What the wording lint reports for a text: of its ordered matches, those
/// that overlap no earlier reported match and stand in no boundary
/// statement, and how many were suppressed as boundary statements.
pub open spec fn lint_spec(t: Seq<u8>) -> (Seq<(usize, usize, usize)>, nat) {
    let m = ordered_matches(t, t.len() as int);
    let sel = selection(match_spans(m), match_exceptions(t, m), m.len() as int);
    (sel.0.map_values(|i: usize| m[i as int]), sel.1)
}

/// `lint_spec(t)`: the reported matches as `(start, end, rule)`, and the
/// number of suppressed boundary statements.
pub fn lint_text(t: &[u8]) -> (r: (Vec<(usize, usize, usize)>, usize))
    ensures
        r.0@ == lint_spec(t@).0,
        r.1 == lint_spec(t@).1,
{
    let n = t.len();
    let m = raw_matches(t);
    proof { lemma_ordered_in_text(t@, n as int); }
    let mut spans: Vec<(usize, usize)> = Vec::new();
    let mut flags: Vec<bool> = Vec::new();
    let mut i: usize = 0;
    while i < m.len()
        invariant
            i <= m@.len(),
            m@ == ordered_matches(t@, t@.len() as int),
            forall|k: int| 0 <= k < m@.len() ==> in_text(t@, #[trigger] m@[k]),
            spans@ == match_spans(m@.take(i as int)),
            flags@ == match_exceptions(t@, m@.take(i as int)),
        decreases m.len() - i,
    {
        let x = m[i];
        assert(in_text(t@, m@[i as int]));
        let e = boundary_exception(t, x.0, x.1);
        spans.push((x.0, x.1));
        flags.push(e.is_some());
        assert(m@.take(i + 1) =~= m@.take(i as int).push(x));
        assert(spans@ =~= match_spans(m@.take(i + 1)));
        assert(flags@ =~= match_exceptions(t@, m@.take(i + 1)));
        i = i + 1;
    }
    assert(m@.take(m@.len() as int) =~= m@);
    let (accepted, suppressed) = select_matches(spans.as_slice(), flags.as_slice());
    proof { lemma_selection_bounds(match_spans(m@), match_exceptions(t@, m@), m@.len() as int); }
    let mut reported: Vec<(usize, usize, usize)> = Vec::new();
    let mut k: usize = 0;
    while k < accepted.len()
        invariant
            k <= accepted@.len(),
            forall|j: int| 0 <= j < accepted@.len() ==> (#[trigger] accepted@[j]) < m@.len(),
            reported@ == accepted@.take(k as int).map_values(|i: usize| m@[i as int]),
        decreases accepted.len() - k,
    {
        let idx = accepted[k];
        reported.push(m[idx]);
        assert(accepted@.take(k + 1) =~= accepted@.take(k as int).push(idx));
        assert(reported@ =~= accepted@.take(k + 1).map_values(|i: usize| m@[i as int]));
        k = k + 1;
    }
    assert(accepted@.take(accepted@.len() as int) =~= accepted@);
    (reported, suppressed)
}


/// The `\n` bytes among the first `k` bytes.
pub open spec fn newlines_before(t: Seq<u8>, k: int) -> nat
    decreases k,
{
    if k <= 0 { 0 } else { newlines_before(t, k - 1) + if t[k - 1] == 0x0Au8 { 1nat } else { 0nat } }
}

/// The bytes in `from..to` that begin a character (are no UTF-8
/// continuation bytes): the characters there, in valid UTF-8.
pub open spec fn char_starts(t: Seq<u8>, from: int, to: int) -> nat
    decreases to - from,
{
    if to <= from { 0 } else { char_starts(t, from, to - 1) + if 0x80u8 <= t[to - 1] && t[to - 1] <= 0xBFu8 { 0nat } else { 1nat } }
}

/// The 1-based line and column (in characters) of byte `b`.
pub open spec fn line_column_of(t: Seq<u8>, b: int) -> (int, int) {
    ((newlines_before(t, b) + 1) as int, (char_starts(t, line_begin(t, b), b) + 1) as int)
}

/// `line_column_of(t, b)`.
pub fn line_column(t: &[u8], b: usize) -> (r: (usize, usize))
    requires
        b <= t@.len() < usize::MAX,
    ensures
        r.0 as int == line_column_of(t@, b as int).0,
        r.1 as int == line_column_of(t@, b as int).1,
{
    let mut line: usize = 1;
    let mut i: usize = 0;
    while i < b
        invariant
            i <= b <= t@.len() < usize::MAX,
            line == newlines_before(t@, i as int) + 1,
            line <= i + 1,
        decreases b - i,
    {
        if t[i] == 0x0Au8 {
            line = line + 1;
        }
        i = i + 1;
    }
    let start = find_line_begin(t, b);
    let mut column: usize = 1;
    let mut k = start;
    while k < b
        invariant
            start <= k <= b <= t@.len() < usize::MAX,
            column == char_starts(t@, start as int, k as int) + 1,
            column <= k - start + 1,
        decreases b - k,
    {
        if !(0x80u8 <= t[k] && t[k] <= 0xBFu8) {
            column = column + 1;
        }
        k = k + 1;
    }
    (line, column)
}


/// What to write instead of an overclaim against `b`.
pub open spec fn hint_text(b: ClaimBoundaryKind) -> Seq<char> {
    match b {
        ClaimBoundaryKind::NotPopularityGuarantee => "Use evidence-scoped popularity wording such as `observed in the scanned sources`."@,
        ClaimBoundaryKind::NotTrustGuarantee => "Use trust-route wording such as `trust-related files are present` instead of trust guarantees."@,
        ClaimBoundaryKind::NotSecurityGuarantee => "Use security-route wording such as `security documentation or automation is present` instead of security guarantees."@,
        ClaimBoundaryKind::NotQualityGuarantee => "Use evidence-scoped wording such as `the audit observed` or `evidence suggests` instead of guarantee language."@,
        ClaimBoundaryKind::NotLegalFitnessGuarantee => "Use review-boundary wording and keep legal decisions with maintainers."@,
        ClaimBoundaryKind::NotLegalAdvice => "Use review-boundary wording and keep legal decisions with maintainers."@,
        ClaimBoundaryKind::NotMaintenanceGuarantee => "Describe observed maintenance routes without promising future maintenance."@,
        ClaimBoundaryKind::NotRuntimeVerification => "Describe static review evidence without claiming runtime verification."@,
        ClaimBoundaryKind::NotPublicationReadiness => "Describe publication-readiness signals without saying publication is ready."@,
        ClaimBoundaryKind::NotProductionReadiness => "Describe production-readiness signals without claiming production readiness."@,
        ClaimBoundaryKind::NotAutomaticPolicyAdoption => "Say policy adoption requires maintainer review."@,
        ClaimBoundaryKind::NotAutomaticWeightAdoption => "Say weight changes are candidate evidence and require maintainer review."@,
    }
}

/// `hint_text(b)`.
pub fn replacement_hint(b: ClaimBoundaryKind) -> (r: String)
    ensures
        r@ == hint_text(b),
{
    let c = match b {
        ClaimBoundaryKind::NotPopularityGuarantee => chars_of("Use evidence-scoped popularity wording such as `observed in the scanned sources`."),
        ClaimBoundaryKind::NotTrustGuarantee => chars_of("Use trust-route wording such as `trust-related files are present` instead of trust guarantees."),
        ClaimBoundaryKind::NotSecurityGuarantee => chars_of("Use security-route wording such as `security documentation or automation is present` instead of security guarantees."),
        ClaimBoundaryKind::NotQualityGuarantee => chars_of("Use evidence-scoped wording such as `the audit observed` or `evidence suggests` instead of guarantee language."),
        ClaimBoundaryKind::NotLegalFitnessGuarantee => chars_of("Use review-boundary wording and keep legal decisions with maintainers."),
        ClaimBoundaryKind::NotLegalAdvice => chars_of("Use review-boundary wording and keep legal decisions with maintainers."),
        ClaimBoundaryKind::NotMaintenanceGuarantee => chars_of("Describe observed maintenance routes without promising future maintenance."),
        ClaimBoundaryKind::NotRuntimeVerification => chars_of("Describe static review evidence without claiming runtime verification."),
        ClaimBoundaryKind::NotPublicationReadiness => chars_of("Describe publication-readiness signals without saying publication is ready."),
        ClaimBoundaryKind::NotProductionReadiness => chars_of("Describe production-readiness signals without claiming production readiness."),
        ClaimBoundaryKind::NotAutomaticPolicyAdoption => chars_of("Say policy adoption requires maintainer review."),
        ClaimBoundaryKind::NotAutomaticWeightAdoption => chars_of("Say weight changes are candidate evidence and require maintainer review."),
    };
    string_of(c.as_slice())
}

} // verus!

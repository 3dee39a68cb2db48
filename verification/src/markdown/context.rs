//! Masks the parts of a Markdown source that are not visible prose: fenced
//! code, HTML comments, code spans and backslash-escaped punctuation. Every
//! hidden character becomes as many spaces as it has UTF-8 bytes, except
//! line endings, so byte offsets and line numbers survive the masking.

use vstd::prelude::*;
use vstd::utf8::encode_utf8;
use vstd::string::StringSliceAdditionalSpecFns;
use crate::text::{chars_of, char_is_ascii_punctuation, char_is_ascii_whitespace,
    is_ascii_punctuation, is_ascii_whitespace, occurs_at, slice_of, string_of};

verus! {

/// `h` with every position in `start..end` set.
pub open spec fn mark_range(h: Seq<bool>, start: int, end: int) -> Seq<bool> {
    Seq::new(h.len(), |i: int| if start <= i < end { true } else { h[i] })
}

/// Number of consecutive `c` in `s` from index `from`.
pub open spec fn run_len(s: Seq<char>, from: int, c: char) -> nat
    decreases s.len() - from,
{
    if 0 <= from < s.len() && s[from] == c {
        1 + run_len(s, from + 1, c)
    } else {
        0
    }
}

/// The index just past the next `\n` at or after `cursor` (the end of `t`
/// where there is none).
pub open spec fn line_end(t: Seq<char>, cursor: int) -> int
    decreases t.len() - cursor,
{
    if cursor >= t.len() || cursor < 0 {
        t.len() as int
    } else if t[cursor] == '\n' {
        cursor + 1
    } else {
        line_end(t, cursor + 1)
    }
}

/// `end`, moved back over one trailing `\n` and then one trailing `\r`.
pub open spec fn trim_line_end(t: Seq<char>, start: int, end: int) -> int {
    let e1 = if end > start && t[end - 1] == '\n' { end - 1 } else { end };
    if e1 > start && t[e1 - 1] == '\r' { e1 - 1 } else { e1 }
}

/// Indentation of at most three spaces.
pub open spec fn indent_of(line: Seq<char>) -> Option<nat> {
    let n = run_len(line, 0, ' ');
    if n <= 3 { Some(n) } else { None }
}

/// A fence opener: at most three spaces, then three or more of `` ` `` or `~`.
pub open spec fn fence_opener(line: Seq<char>) -> Option<(char, nat)> {
    match indent_of(line) {
        None => None,
        Some(s) => if s < line.len() && (line[s as int] == '`' || line[s as int] == '~') {
            let w = run_len(line, s as int, line[s as int]);
            if w >= 3 { Some((line[s as int], w)) } else { None }
        } else {
            None
        },
    }
}

/// A fence closer for a fence of `marker` opened with `width` markers.
pub open spec fn fence_closer(line: Seq<char>, marker: char, width: nat) -> bool {
    match indent_of(line) {
        None => false,
        Some(s) => {
            let w = run_len(line, s as int, marker);
            w >= width && forall|i: int| s + w <= i < line.len() ==> is_ascii_whitespace(#[trigger] line[i])
        },
    }
}

/// Hides every line from a fence opener through its closer (or to the end).
pub open spec fn fence_scan(t: Seq<char>, h: Seq<bool>, cursor: int, fence: Option<(char, nat)>) -> Seq<bool>
    decreases t.len() - cursor,
{
    if cursor < 0 || cursor >= t.len() {
        h
    } else {
        let le = line_end(t, cursor);
        let line = t.subrange(cursor, trim_line_end(t, cursor, le));
        if le <= cursor || le > t.len() {
            h
        } else {
            match fence {
                Some((m, w)) => fence_scan(t, mark_range(h, cursor, le), le,
                    if fence_closer(line, m, w) { None } else { fence }),
                None => match fence_opener(line) {
                    Some(o) => fence_scan(t, mark_range(h, cursor, le), le, Some(o)),
                    None => fence_scan(t, h, le, None),
                },
            }
        }
    }
}

/// No position of `start..start + n` is hidden.
pub open spec fn window_visible(h: Seq<bool>, start: int, n: int) -> bool {
    forall|i: int| start <= i < start + n ==> !(#[trigger] h[i])
}

/// The first visible occurrence of `needle` at or after `from`.
pub open spec fn first_visible(t: Seq<char>, h: Seq<bool>, needle: Seq<char>, from: int) -> Option<int>
    decreases t.len() - from,
{
    if from < 0 || from >= t.len() || from + needle.len() > t.len() {
        None
    } else if occurs_at(t, needle, from) && window_visible(h, from, needle.len() as int) {
        Some(from)
    } else {
        first_visible(t, h, needle, from + 1)
    }
}

/// `find_visible`: nothing for an empty needle or a start past the end.
pub open spec fn visible_find(t: Seq<char>, h: Seq<bool>, needle: Seq<char>, from: int) -> Option<int> {
    if needle.len() == 0 || from >= t.len() {
        None
    } else {
        first_visible(t, h, needle, from)
    }
}

pub open spec fn comment_open() -> Seq<char> {
    seq!['<', '!', '-', '-']
}

pub open spec fn comment_close() -> Seq<char> {
    seq!['-', '-', '>']
}

/// Hides each visible `<!--` through the next visible `-->` (or to the end).
pub open spec fn comment_scan(t: Seq<char>, h: Seq<bool>, cursor: int) -> Seq<bool>
    decreases t.len() - cursor,
{
    match visible_find(t, h, comment_open(), cursor) {
        None => h,
        Some(start) => {
            let end = match visible_find(t, h, comment_close(), start + 4) {
                Some(p) => p + 3,
                None => t.len() as int,
            };
            if end <= cursor || start < cursor || end > t.len() {
                h
            } else {
                comment_scan(t, mark_range(h, start, end), end)
            }
        },
    }
}

/// The end of the first visible backtick run of exactly `width` at or after
/// `cand`.
pub open spec fn span_close(t: Seq<char>, h: Seq<bool>, cand: int, width: nat) -> Option<int>
    decreases t.len() - cand,
{
    if cand < 0 || cand >= t.len() {
        None
    } else if h[cand] || t[cand] != '`' {
        span_close(t, h, cand + 1, width)
    } else {
        let cw = run_len(t, cand, '`');
        if cw == width {
            Some(cand + width)
        } else if cw == 0 || cand + cw > t.len() {
            None
        } else {
            span_close(t, h, cand + cw, width)
        }
    }
}

/// Hides each code span: a visible backtick run through the next visible run
/// of the same width.
pub open spec fn span_scan(t: Seq<char>, h: Seq<bool>, cursor: int) -> Seq<bool>
    decreases t.len() - cursor,
{
    if cursor < 0 || cursor >= t.len() {
        h
    } else if h[cursor] || t[cursor] != '`' {
        span_scan(t, h, cursor + 1)
    } else {
        let w = run_len(t, cursor, '`');
        match span_close(t, h, cursor + w, w) {
            Some(end) => if end <= cursor || end > t.len() {
                h
            } else {
                span_scan(t, mark_range(h, cursor, end), end)
            },
            None => if w == 0 || cursor + w > t.len() {
                h
            } else {
                span_scan(t, h, cursor + w)
            },
        }
    }
}

/// Hides the punctuation character after each visible backslash.
pub open spec fn escape_scan(t: Seq<char>, h: Seq<bool>, cursor: int) -> Seq<bool>
    decreases t.len() - cursor,
{
    if cursor < 0 || cursor + 1 >= t.len() {
        h
    } else if !h[cursor] && t[cursor] == '\\' && is_ascii_punctuation(t[cursor + 1]) {
        escape_scan(t, h.update(cursor + 1, true), cursor + 2)
    } else {
        escape_scan(t, h, cursor + 1)
    }
}

/// Which characters of `t` are hidden.
pub open spec fn hidden_mask(t: Seq<char>) -> Seq<bool> {
    let h0 = Seq::new(t.len(), |i: int| false);
    escape_scan(t, span_scan(t, comment_scan(t, fence_scan(t, h0, 0, None), 0), 0), 0)
}

/// Number of UTF-8 bytes of `c`.
pub open spec fn utf8_width(c: char) -> nat {
    if (c as u32) <= 0x7F {
        1
    } else if (c as u32) <= 0x7FF {
        2
    } else if (c as u32) <= 0xFFFF {
        3
    } else {
        4
    }
}

/// `n` spaces.
pub open spec fn spaces(n: nat) -> Seq<char> {
    Seq::new(n, |i: int| ' ')
}

/// What a character becomes: hidden characters other than line endings
/// turn into one space per UTF-8 byte.
pub open spec fn masked_piece(c: char, hidden: bool) -> Seq<char> {
    if hidden && c != '\r' && c != '\n' {
        spaces(utf8_width(c))
    } else {
        seq![c]
    }
}

/// `t` with each character replaced by its masked piece.
pub open spec fn masked_text(t: Seq<char>, h: Seq<bool>) -> Seq<char>
    decreases t.len(),
{
    if t.len() == 0 {
        Seq::<char>::empty()
    } else {
        masked_text(t.drop_last(), h) + masked_piece(t.last(), h[t.len() - 1])
    }
}

/// Number of `c` in `s`.
pub open spec fn count_char(s: Seq<char>, c: char) -> nat
    decreases s.len(),
{
    if s.len() == 0 {
        0
    } else {
        count_char(s.drop_last(), c) + if s.last() == c { 1nat } else { 0nat }
    }
}

// ---------------------------------------------------------------- lemmas

proof fn lemma_line_end(t: Seq<char>, cursor: int)
    requires
        0 <= cursor < t.len(),
    ensures
        cursor < line_end(t, cursor) <= t.len(),
    decreases t.len() - cursor,
{
    if t[cursor] != '\n' {
        if cursor + 1 < t.len() {
            lemma_line_end(t, cursor + 1);
        } else {
            assert(line_end(t, cursor + 1) == t.len());
        }
    }
}

proof fn lemma_run_len_bound(s: Seq<char>, from: int, c: char)
    requires
        0 <= from <= s.len(),
    ensures
        from + run_len(s, from, c) <= s.len(),
        forall|i: int| from <= i < from + run_len(s, from, c) ==> s[i] == c,
    decreases s.len() - from,
{
    if from < s.len() && s[from] == c {
        lemma_run_len_bound(s, from + 1, c);
    }
}

proof fn lemma_first_visible(t: Seq<char>, h: Seq<bool>, needle: Seq<char>, from: int)
    requires
        0 <= from,
    ensures
        first_visible(t, h, needle, from) matches Some(p) ==> from <= p && p + needle.len() <= t.len(),
    decreases t.len() - from,
{
    if from < t.len() && from + needle.len() <= t.len() && !(occurs_at(t, needle, from) && window_visible(h, from, needle.len() as int)) {
        lemma_first_visible(t, h, needle, from + 1);
    }
}

proof fn lemma_span_close(t: Seq<char>, h: Seq<bool>, cand: int, width: nat)
    requires
        0 <= cand,
        width > 0,
    ensures
        span_close(t, h, cand, width) matches Some(e) ==> cand < e <= t.len(),
    decreases t.len() - cand,
{
    if cand < t.len() {
        lemma_run_len_bound(t, cand, '`');
        if h[cand] || t[cand] != '`' {
            lemma_span_close(t, h, cand + 1, width);
        } else {
            let cw = run_len(t, cand, '`');
            if cw != width && cw != 0 && cand + cw <= t.len() {
                lemma_span_close(t, h, cand + cw, width);
            }
        }
    }
}

proof fn lemma_fence_len(t: Seq<char>, h: Seq<bool>, cursor: int, fence: Option<(char, nat)>)
    ensures
        fence_scan(t, h, cursor, fence).len() == h.len(),
    decreases t.len() - cursor,
{
    if 0 <= cursor < t.len() {
        let le = line_end(t, cursor);
        let line = t.subrange(cursor, trim_line_end(t, cursor, le));
        if le > cursor && le <= t.len() {
            match fence {
                Some((m, w)) => lemma_fence_len(t, mark_range(h, cursor, le), le,
                    if fence_closer(line, m, w) { None } else { fence }),
                None => match fence_opener(line) {
                    Some(o) => lemma_fence_len(t, mark_range(h, cursor, le), le, Some(o)),
                    None => lemma_fence_len(t, h, le, None),
                },
            }
        }
    }
}

proof fn lemma_comment_len(t: Seq<char>, h: Seq<bool>, cursor: int)
    ensures
        comment_scan(t, h, cursor).len() == h.len(),
    decreases t.len() - cursor,
{
    match visible_find(t, h, comment_open(), cursor) {
        None => {},
        Some(start) => {
            let end = match visible_find(t, h, comment_close(), start + 4) {
                Some(p) => p + 3,
                None => t.len() as int,
            };
            if !(end <= cursor || start < cursor || end > t.len()) {
                lemma_comment_len(t, mark_range(h, start, end), end);
            }
        },
    }
}

proof fn lemma_span_len(t: Seq<char>, h: Seq<bool>, cursor: int)
    ensures
        span_scan(t, h, cursor).len() == h.len(),
    decreases t.len() - cursor,
{
    if 0 <= cursor < t.len() {
        if h[cursor] || t[cursor] != '`' {
            lemma_span_len(t, h, cursor + 1);
        } else {
            let w = run_len(t, cursor, '`');
            match span_close(t, h, cursor + w, w) {
                Some(end) => if end > cursor && end <= t.len() {
                    lemma_span_len(t, mark_range(h, cursor, end), end);
                },
                None => if w != 0 && cursor + w <= t.len() {
                    lemma_span_len(t, h, cursor + w);
                },
            }
        }
    }
}

proof fn lemma_escape_len(t: Seq<char>, h: Seq<bool>, cursor: int)
    requires
        h.len() == t.len(),
    ensures
        escape_scan(t, h, cursor).len() == h.len(),
    decreases t.len() - cursor,
{
    if 0 <= cursor && cursor + 1 < t.len() {
        if !h[cursor] && t[cursor] == '\\' && is_ascii_punctuation(t[cursor + 1]) {
            lemma_escape_len(t, h.update(cursor + 1, true), cursor + 2);
        } else {
            lemma_escape_len(t, h, cursor + 1);
        }
    }
}

pub proof fn lemma_hidden_mask_len(t: Seq<char>)
    ensures
        hidden_mask(t).len() == t.len(),
{
    let h0 = Seq::new(t.len(), |i: int| false);
    lemma_fence_len(t, h0, 0, None);
    let h1 = fence_scan(t, h0, 0, None);
    lemma_comment_len(t, h1, 0);
    let h2 = comment_scan(t, h1, 0);
    lemma_span_len(t, h2, 0);
    let h3 = span_scan(t, h2, 0);
    lemma_escape_len(t, h3, 0);
}

// ---------------------------------------------------------------- exec

/// `h[start..end]` all set.
fn mark(hidden: &mut Vec<bool>, start: usize, end: usize)
    requires
        start <= end <= old(hidden).len(),
    ensures
        final(hidden)@ == mark_range(old(hidden)@, start as int, end as int),
{
    let mut i = start;
    while i < end
        invariant
            start <= i <= end <= hidden.len(),
            hidden@ == mark_range(old(hidden)@, start as int, i as int),
        decreases end - i,
    {
        hidden.set(i, true);
        i = i + 1;
        assert(hidden@ =~= mark_range(old(hidden)@, start as int, i as int));
    }
}

/// `run_len(s, from, c)`.
fn run_length(s: &[char], from: usize, c: char) -> (r: usize)
    requires
        from <= s.len(),
    ensures
        r == run_len(s@, from as int, c),
{
    let mut i = from;
    while i < s.len() && s[i] == c
        invariant
            from <= i <= s.len(),
            run_len(s@, from as int, c) == (i - from) + run_len(s@, i as int, c),
        decreases s.len() - i,
    {
        i = i + 1;
    }
    i - from
}

/// `line_end(t, cursor)`.
fn next_line_end(t: &[char], cursor: usize) -> (r: usize)
    requires
        cursor < t.len(),
    ensures
        r == line_end(t@, cursor as int),
        cursor < r <= t.len(),
{
    proof { lemma_line_end(t@, cursor as int); }
    let mut i = cursor;
    while i < t.len() && t[i] != '\n'
        invariant
            cursor <= i <= t.len(),
            line_end(t@, cursor as int) == line_end(t@, i as int),
        decreases t.len() - i,
    {
        i = i + 1;
    }
    if i < t.len() {
        i + 1
    } else {
        i
    }
}

/// `trim_line_end(t, start, end)`.
fn trim_line_ending(t: &[char], start: usize, end: usize) -> (r: usize)
    requires
        start <= end <= t.len(),
    ensures
        r == trim_line_end(t@, start as int, end as int),
        start <= r <= end,
{
    let mut e = end;
    if e > start && t[e - 1] == '\n' {
        e = e - 1;
    }
    if e > start && t[e - 1] == '\r' {
        e = e - 1;
    }
    e
}

/// `indent_of(line)`.
fn leading_spaces(line: &[char]) -> (r: Option<usize>)
    ensures
        match indent_of(line@) {
            Some(n) => r == Some(n as usize),
            None => r is None,
        },
{
    let count = run_length(line, 0, ' ');
    if count <= 3 {
        Some(count)
    } else {
        None
    }
}

/// `fence_opener(line)`.
fn opening_fence(line: &[char]) -> (r: Option<(char, usize)>)
    ensures
        match fence_opener(line@) {
            Some((m, w)) => r == Some((m, w as usize)) && w <= line.len(),
            None => r is None,
        },
{
    let marker_start = match leading_spaces(line) {
        Some(s) => s,
        None => { return None; },
    };
    proof { lemma_run_len_bound(line@, 0, ' '); }
    if marker_start >= line.len() {
        return None;
    }
    let marker = line[marker_start];
    if marker != '`' && marker != '~' {
        return None;
    }
    let width = run_length(line, marker_start, marker);
    proof { lemma_run_len_bound(line@, marker_start as int, marker); }
    if width >= 3 {
        Some((marker, width))
    } else {
        None
    }
}

/// `fence_closer(line, marker, opening_width)`.
fn is_closing_fence(line: &[char], marker: char, opening_width: usize) -> (r: bool)
    ensures
        r == fence_closer(line@, marker, opening_width as nat),
{
    let marker_start = match leading_spaces(line) {
        Some(s) => s,
        None => { return false; },
    };
    proof { lemma_run_len_bound(line@, 0, ' '); }
    assert(marker_start == run_len(line@, 0, ' '));
    assert(marker_start <= line.len());
    let width = run_length(line, marker_start, marker);
    proof { lemma_run_len_bound(line@, marker_start as int, marker); }
    assert(marker_start + width <= line.len());
    if width < opening_width {
        return false;
    }
    let mut i = marker_start + width;
    while i < line.len()
        invariant
            marker_start + width <= i <= line.len(),
            indent_of(line@) == Some(marker_start as nat),
            width == run_len(line@, marker_start as int, marker),
            width >= opening_width,
            forall|k: int| marker_start + width <= k < i ==> is_ascii_whitespace(#[trigger] line@[k]),
        decreases line.len() - i,
    {
        if !char_is_ascii_whitespace(line[i]) {
            assert(!is_ascii_whitespace(line@[i as int]));
            return false;
        }
        i = i + 1;
    }
    true
}

fn mark_fenced_code(t: &[char], hidden: &mut Vec<bool>)
    requires
        old(hidden).len() == t.len(),
    ensures
        final(hidden)@ == fence_scan(t@, old(hidden)@, 0, None),
{
    let mut cursor: usize = 0;
    let mut fence: Option<(char, usize)> = None;
    while cursor < t.len()
        invariant
            cursor <= t.len(),
            hidden.len() == t.len(),
            fence_scan(t@, old(hidden)@, 0, None) == fence_scan(t@, hidden@, cursor as int,
                match fence { Some((m, w)) => Some((m, w as nat)), None => None }),
        decreases t.len() - cursor,
    {
        let line_end = next_line_end(t, cursor);
        let content_end = trim_line_ending(t, cursor, line_end);
        let line = slice_of(t, cursor, content_end);
        let ghost h_before = hidden@;
        let ghost f_before = match fence { Some((m, w)) => Some((m, w as nat)), None => None::<(char, nat)> };
        assert(fence_scan(t@, h_before, cursor as int, f_before) == match f_before {
            Some((m, w)) => fence_scan(t@, mark_range(h_before, cursor as int, line_end as int), line_end as int,
                if fence_closer(line@, m, w) { None } else { f_before }),
            None => match fence_opener(line@) {
                Some(o) => fence_scan(t@, mark_range(h_before, cursor as int, line_end as int), line_end as int, Some(o)),
                None => fence_scan(t@, h_before, line_end as int, None),
            },
        });
        match fence {
            Some((marker, width)) => {
                mark(hidden, cursor, line_end);
                if is_closing_fence(line.as_slice(), marker, width) {
                    fence = None;
                }
            },
            None => {
                match opening_fence(line.as_slice()) {
                    Some(opening) => {
                        mark(hidden, cursor, line_end);
                        fence = Some(opening);
                    },
                    None => {},
                }
            },
        }
        cursor = line_end;
    }
}

/// `window_visible(h, start, n)`.
fn window_is_visible(hidden: &Vec<bool>, start: usize, n: usize) -> (r: bool)
    requires
        start + n <= hidden.len(),
    ensures
        r == window_visible(hidden@, start as int, n as int),
{
    let mut k: usize = 0;
    while k < n
        invariant
            start + n <= hidden.len(),
            k <= n,
            forall|i: int| start <= i < start + k ==> !(#[trigger] hidden@[i]),
        decreases n - k,
    {
        if hidden[start + k] {
            assert(hidden@[start + k]);
            return false;
        }
        k = k + 1;
    }
    true
}

/// `visible_find(t, h, needle, from)`.
fn find_visible(t: &[char], hidden: &Vec<bool>, from: usize, needle: &[char]) -> (r: Option<usize>)
    requires
        hidden.len() == t.len(),
    ensures
        match visible_find(t@, hidden@, needle@, from as int) {
            Some(p) => r == Some(p as usize) && from <= p && p + needle.len() <= t.len(),
            None => r is None,
        },
{
    if needle.len() == 0 || from >= t.len() {
        return None;
    }
    proof { lemma_first_visible(t@, hidden@, needle@, from as int); }
    let mut start = from;
    while start <= t.len() && needle.len() <= t.len() - start
        invariant
            from <= start,
            needle.len() > 0,
            from < t.len(),
            first_visible(t@, hidden@, needle@, from as int) == first_visible(t@, hidden@, needle@, start as int),
            hidden.len() == t.len(),
        decreases t.len() + 1 - start,
    {
        let ok = crate::text::matches_at(t, needle, start) && window_is_visible(hidden, start, needle.len());
        if ok {
            return Some(start);
        }
        start = start + 1;
    }
    None
}

fn mark_html_comments(t: &[char], hidden: &mut Vec<bool>)
    requires
        old(hidden).len() == t.len(),
    ensures
        final(hidden)@ == comment_scan(t@, old(hidden)@, 0),
{
    let open: Vec<char> = vec!['<', '!', '-', '-'];
    let close: Vec<char> = vec!['-', '-', '>'];
    assert(open@ =~= comment_open());
    assert(close@ =~= comment_close());
    let mut cursor: usize = 0;
    loop
        invariant
            cursor <= t.len(),
            hidden.len() == t.len(),
            open@ == comment_open(),
            close@ == comment_close(),
            comment_scan(t@, old(hidden)@, 0) == comment_scan(t@, hidden@, cursor as int),
        decreases t.len() - cursor,
    {
        let start = match find_visible(t, hidden, cursor, open.as_slice()) {
            Some(s) => s,
            None => { return; },
        };
        let end = match find_visible(t, hidden, start + 4, close.as_slice()) {
            Some(p) => p + 3,
            None => t.len(),
        };
        mark(hidden, start, end);
        cursor = end;
    }
}

/// `span_close(t, h, cand, width)`.
fn closing_run(t: &[char], hidden: &Vec<bool>, cand: usize, width: usize) -> (r: Option<usize>)
    requires
        hidden.len() == t.len(),
        width > 0,
    ensures
        match span_close(t@, hidden@, cand as int, width as nat) {
            Some(e) => r == Some(e as usize) && cand < e <= t.len(),
            None => r is None,
        },
{
    proof { lemma_span_close(t@, hidden@, cand as int, width as nat); }
    let mut c = cand;
    while c < t.len()
        invariant
            cand <= c,
            hidden.len() == t.len(),
            width > 0,
            span_close(t@, hidden@, cand as int, width as nat) == span_close(t@, hidden@, c as int, width as nat),
        decreases t.len() - c,
    {
        if hidden[c] || t[c] != '`' {
            c = c + 1;
        } else {
            let cw = run_length(t, c, '`');
            proof { lemma_run_len_bound(t@, c as int, '`'); }
            if cw == width {
                return Some(c + width);
            }
            c = c + cw;
        }
    }
    None
}

fn mark_code_spans(t: &[char], hidden: &mut Vec<bool>)
    requires
        old(hidden).len() == t.len(),
    ensures
        final(hidden)@ == span_scan(t@, old(hidden)@, 0),
{
    let mut cursor: usize = 0;
    while cursor < t.len()
        invariant
            cursor <= t.len(),
            hidden.len() == t.len(),
            span_scan(t@, old(hidden)@, 0) == span_scan(t@, hidden@, cursor as int),
        decreases t.len() - cursor,
    {
        if hidden[cursor] || t[cursor] != '`' {
            cursor = cursor + 1;
        } else {
            let width = run_length(t, cursor, '`');
            proof { lemma_run_len_bound(t@, cursor as int, '`'); }
            match closing_run(t, hidden, cursor + width, width) {
                Some(end) => {
                    mark(hidden, cursor, end);
                    cursor = end;
                },
                None => {
                    cursor = cursor + width;
                },
            }
        }
    }
}

fn mark_escapes(t: &[char], hidden: &mut Vec<bool>)
    requires
        old(hidden).len() == t.len(),
    ensures
        final(hidden)@ == escape_scan(t@, old(hidden)@, 0),
{
    let mut cursor: usize = 0;
    while t.len() > 0 && cursor < t.len() - 1
        invariant
            cursor <= t.len(),
            hidden.len() == t.len(),
            escape_scan(t@, old(hidden)@, 0) == escape_scan(t@, hidden@, cursor as int),
        decreases t.len() - cursor,
    {
        if !hidden[cursor] && t[cursor] == '\\' && char_is_ascii_punctuation(t[cursor + 1]) {
            hidden.set(cursor + 1, true);
            cursor = cursor + 2;
        } else {
            cursor = cursor + 1;
        }
    }
}

/// `utf8_width(c)`.
pub fn char_width(c: char) -> (r: usize)
    ensures
        r == utf8_width(c),
{
    let v = c as u32;
    if v <= 0x7F {
        1
    } else if v <= 0x7FF {
        2
    } else if v <= 0xFFFF {
        3
    } else {
        4
    }
}

proof fn lemma_masked_prefix(t: Seq<char>, h: Seq<bool>, i: int)
    requires
        0 <= i < t.len(),
    ensures
        masked_text(t.subrange(0, i + 1), h) == masked_text(t.subrange(0, i), h) + masked_piece(t[i], h[i]),
{
    assert(t.subrange(0, i + 1).drop_last() =~= t.subrange(0, i));
}

pub proof fn lemma_encode_concat(a: Seq<char>, b: Seq<char>)
    ensures
        encode_utf8(a + b) == encode_utf8(a) + encode_utf8(b),
    decreases a.len(),
{
    if a.len() == 0 {
        assert(a + b =~= b);
        assert(encode_utf8(a) + encode_utf8(b) =~= encode_utf8(b));
    } else {
        assert((a + b).drop_first() =~= a.drop_first() + b);
        lemma_encode_concat(a.drop_first(), b);
        assert((a + b)[0] == a[0]);
    }
}

pub proof fn lemma_encode_char_len(c: char)
    ensures
        encode_utf8(seq![c]).len() == utf8_width(c),
{
    broadcast use vstd::utf8::char_is_scalar;
    assert(seq![c].drop_first() =~= Seq::<char>::empty());
    let v = c as u32;
    assert(vstd::utf8::is_scalar(v));
    assert(encode_utf8(seq![c]) =~= vstd::utf8::encode_scalar(v) + encode_utf8(Seq::<char>::empty()));
    assert(encode_utf8(Seq::<char>::empty()) =~= Seq::<u8>::empty());
    if v <= 0x7F {
        assert(vstd::utf8::encode_scalar(v).len() == 1);
    } else if v <= 0x7FF {
        assert(vstd::utf8::encode_scalar(v).len() == 2);
    } else if v <= 0xFFFF {
        assert(vstd::utf8::has_width_3_encoding(v));
        assert(vstd::utf8::encode_scalar(v).len() == 3);
    } else {
        assert(vstd::utf8::has_width_4_encoding(v));
        assert(vstd::utf8::encode_scalar(v).len() == 4);
    }
}

proof fn lemma_encode_spaces_len(n: nat)
    ensures
        encode_utf8(spaces(n)).len() == n,
    decreases n,
{
    if n > 0 {
        assert(spaces(n).drop_first() =~= spaces((n - 1) as nat));
        lemma_encode_spaces_len((n - 1) as nat);
        assert(spaces(n)[0] == ' ');
    } else {
        assert(spaces(n) =~= Seq::<char>::empty());
    }
}

proof fn lemma_count_concat(a: Seq<char>, b: Seq<char>, c: char)
    ensures
        count_char(a + b, c) == count_char(a, c) + count_char(b, c),
    decreases b.len(),
{
    if b.len() == 0 {
        assert(a + b =~= a);
    } else {
        assert((a + b).drop_last() =~= a + b.drop_last());
        lemma_count_concat(a, b.drop_last(), c);
    }
}

proof fn lemma_count_spaces(n: nat)
    ensures
        count_char(spaces(n), '\n') == 0,
    decreases n,
{
    if n > 0 {
        assert(spaces(n).drop_last() =~= spaces((n - 1) as nat));
        lemma_count_spaces((n - 1) as nat);
    } else {
        assert(spaces(n) =~= Seq::<char>::empty());
    }
}

/// Masking keeps the UTF-8 length of every prefix and the number of
/// newlines in it.
pub proof fn lemma_masked_text_shape(t: Seq<char>, h: Seq<bool>)
    ensures
        encode_utf8(masked_text(t, h)).len() == encode_utf8(t).len(),
        count_char(masked_text(t, h), '\n') == count_char(t, '\n'),
    decreases t.len(),
{
    if t.len() > 0 {
        let init = t.drop_last();
        let c = t.last();
        lemma_masked_text_shape(init, h);
        assert(t =~= init + seq![c]);
        lemma_encode_concat(init, seq![c]);
        lemma_count_concat(init, seq![c], '\n');
        let piece = masked_piece(c, h[t.len() - 1]);
        lemma_encode_concat(masked_text(init, h), piece);
        lemma_count_concat(masked_text(init, h), piece, '\n');
        lemma_encode_char_len(c);
        assert(seq![c].drop_last() =~= Seq::<char>::empty());
        if h[t.len() - 1] && c != '\r' && c != '\n' {
            lemma_encode_spaces_len(utf8_width(c));
            lemma_count_spaces(utf8_width(c));
        }
    }
}

/// The text with its hidden contexts masked: `masked_text(text@,
/// hidden_mask(text@))`, which has the byte length and the newlines of the
/// input. A text too short to hold a comment opener has no comment.
pub fn mask_hidden_contexts(text: &str) -> (out: String)
    requires
    ensures
        out@ == masked_text(text@, hidden_mask(text@)),
        encode_utf8(out@).len() == text.spec_bytes().len(),
        count_char(out@, '\n') == count_char(text@, '\n'),
{
    let t = chars_of(text);
    let mut hidden: Vec<bool> = Vec::new();
    let mut k: usize = 0;
    while k < t.len()
        invariant
            k <= t.len(),
            hidden.len() == k,
            forall|j: int| 0 <= j < k ==> !hidden@[j],
        decreases t.len() - k,
    {
        hidden.push(false);
        k = k + 1;
    }
    assert(hidden@ =~= Seq::new(t@.len(), |i: int| false));
    mark_fenced_code(t.as_slice(), &mut hidden);
    proof { lemma_fence_len(t@, Seq::new(t@.len(), |i: int| false), 0, None); }
    let ghost h1 = hidden@;
    mark_html_comments(t.as_slice(), &mut hidden);
    proof { lemma_comment_len(t@, h1, 0); }
    let ghost h2 = hidden@;
    mark_code_spans(t.as_slice(), &mut hidden);
    proof { lemma_span_len(t@, h2, 0); }
    mark_escapes(t.as_slice(), &mut hidden);
    proof { lemma_hidden_mask_len(t@); }
    let ghost h = hidden@;
    assert(h == hidden_mask(text@));
    let mut out: Vec<char> = Vec::new();
    let mut i: usize = 0;
    assert(t@.subrange(0, 0) =~= Seq::<char>::empty());
    while i < t.len()
        invariant
            i <= t.len(),
            hidden@ == h,
            h.len() == t.len(),
            out@ == masked_text(t@.subrange(0, i as int), h),
        decreases t.len() - i,
    {
        let c = t[i];
        proof { lemma_masked_prefix(t@, h, i as int); }
        if hidden[i] && c != '\r' && c != '\n' {
            let w = char_width(c);
            let mut j: usize = 0;
            let ghost base = out@;
            while j < w
                invariant
                    j <= w,
                    out@ == base + spaces(j as nat),
                decreases w - j,
            {
                out.push(' ');
                j = j + 1;
                assert(out@ =~= base + spaces(j as nat));
            }
        } else {
            out.push(c);
            assert(out@ =~= masked_text(t@.subrange(0, i as int), h) + seq![c]);
        }
        i = i + 1;
    }
    assert(t@.subrange(0, t.len() as int) =~= t@);
    let result = string_of(out.as_slice());
    proof { lemma_masked_text_shape(text@, h); }
    result
}

} // verus!

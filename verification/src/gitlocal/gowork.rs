//! The `go.work` format: `use` directives, single or in a block, with
//! `//` comments.

use vstd::prelude::*;
use crate::fs::containment::{split_on, split_segments, views};
use crate::profiles::signals::{trim_matching, trim_matches_char};
use crate::text::{chars_of, equals_str, has_prefix, slice_of, starts_with_str, string_of, trim, trimmed};

verus! {

/// A line without the `\r` of a `\r\n` ending.
pub open spec fn strip_cr(l: Seq<char>) -> Seq<char> {
    if l.len() > 0 && l.last() == '\r' { l.drop_last() } else { l }
}

/// The lines of a text as `str::lines` gives them: split at `\n`, a `\r`
/// before the `\n` dropped, no line after a final `\n`.
pub open spec fn lines_of(s: Seq<char>) -> Seq<Seq<char>> {
    let pieces = split_on(s, '\n');
    let body = pieces.drop_last().map_values(|l: Seq<char>| strip_cr(l));
    if pieces.last().len() == 0 { body } else { body.push(pieces.last()) }
}

/// What precedes the first `//` of a line.
pub open spec fn before_comment(s: Seq<char>) -> Seq<char>
    decreases s.len(),
{
    if s.len() == 0 || (s.len() >= 2 && s[0] == '/' && s[1] == '/') {
        Seq::empty()
    } else {
        seq![s[0]] + before_comment(s.drop_first())
    }
}

/// One line of `go.work`: members so far and whether a `use (` block is open.
pub open spec fn go_step(members: Seq<Seq<char>>, in_use: bool, raw: Seq<char>) -> (Seq<Seq<char>>, bool) {
    let line = trim(before_comment(raw));
    if line == "use ("@ {
        (members, true)
    } else if in_use && line == ")"@ {
        (members, false)
    } else if has_prefix(line, "use "@) {
        (members.push(trim_matching(line.subrange(4, line.len() as int), '"')), in_use)
    } else if in_use && line.len() > 0 {
        (members.push(trim_matching(line, '"')), in_use)
    } else {
        (members, in_use)
    }
}

pub open spec fn go_fold(lines: Seq<Seq<char>>) -> (Seq<Seq<char>>, bool)
    decreases lines.len(),
{
    if lines.len() == 0 {
        (Seq::empty(), false)
    } else {
        let (m, u) = go_fold(lines.drop_last());
        go_step(m, u, lines.last())
    }
}

/// The members a `go.work` text uses; none when a `use (` block is left open.
pub open spec fn go_work_spec(text: Seq<char>) -> Option<Seq<Seq<char>>> {
    let (m, in_use) = go_fold(lines_of(text));
    if in_use { None } else { Some(m) }
}

pub open spec fn string_views(v: Seq<String>) -> Seq<Seq<char>> {
    v.map_values(|s: String| s@)
}

/// The lines of `s` (`lines_of`).
pub fn split_lines(s: &[char]) -> (out: Vec<Vec<char>>)
    ensures
        views(out@) == lines_of(s@),
{
    let pieces = split_segments(s, '\n');
    proof { crate::fs::containment::lemma_split_nonempty(s@, '\n'); }
    let ghost pv = views(pieces@);
    let mut out: Vec<Vec<char>> = Vec::new();
    let mut i: usize = 0;
    let n = pieces.len() - 1;
    while i < n
        invariant
            n + 1 == pieces.len(),
            pv == views(pieces@),
            pv == split_on(s@, '\n'),
            i <= n,
            views(out@) == pv.take(i as int).map_values(|l: Seq<char>| strip_cr(l)),
        decreases n - i,
    {
        let p = pieces[i].as_slice();
        assert(pv[i as int] == p@);
        let line = if p.len() > 0 && p[p.len() - 1] == '\r' {
            slice_of(p, 0, p.len() - 1)
        } else {
            slice_of(p, 0, p.len())
        };
        proof {
            assert(p@.subrange(0, p.len() as int) =~= p@);
            if p.len() > 0 {
                assert(p@.drop_last() =~= p@.subrange(0, p.len() - 1));
            }
        }
        assert(line@ == strip_cr(p@));
        let ghost prev = views(out@);
        out.push(line);
        assert(views(out@) =~= prev.push(strip_cr(pv[i as int])));
        assert(pv.take(i + 1) =~= pv.take(i as int).push(pv[i as int]));
        assert(views(out@) =~= pv.take(i + 1).map_values(|l: Seq<char>| strip_cr(l)));
        i = i + 1;
    }
    assert(pv.take(n as int) =~= pv.drop_last());
    let last = pieces[n].as_slice();
    assert(pv[n as int] == last@);
    if last.len() > 0 {
        out.push(slice_of(last, 0, last.len()));
        assert(last@.subrange(0, last.len() as int) =~= last@);
        assert(views(out@) =~= pv.drop_last().map_values(|l: Seq<char>| strip_cr(l)).push(pv.last()));
    }
    out
}

/// `before_comment(s)`.
pub fn cut_comment(s: &[char]) -> (out: Vec<char>)
    ensures
        out@ == before_comment(s@),
{
    let mut i: usize = 0;
    assert(s@.skip(0) =~= s@);
    while i < s.len() && !(s.len() - i >= 2 && s[i] == '/' && s[i + 1] == '/')
        invariant
            i <= s.len(),
            before_comment(s@) == s@.take(i as int) + before_comment(s@.skip(i as int)),
        decreases s.len() - i,
    {
        let ghost rest = s@.skip(i as int);
        assert(rest[0] == s@[i as int]);
        assert(rest.len() >= 2 ==> rest[1] == s@[i + 1]);
        assert(rest.drop_first() =~= s@.skip(i + 1));
        assert(s@.take(i as int) + (seq![s@[i as int]] + before_comment(s@.skip(i + 1)))
            =~= s@.take(i + 1) + before_comment(s@.skip(i + 1)));
        i = i + 1;
    }
    proof {
        let rest = s@.skip(i as int);
        if i < s.len() {
            assert(rest[0] == s@[i as int] && rest[1] == s@[i + 1]);
        }
    }
    assert(s@.take(i as int) + before_comment(s@.skip(i as int)) =~= s@.subrange(0, i as int));
    slice_of(s, 0, i)
}

/// The workspace declared by a manifest.
#[derive(Debug, Clone, PartialEq, Eq)]
pub struct ParsedManifest {
    pub members: Vec<String>,
    pub declares_workspace: bool,
    pub declares_package: bool,
}

/// The members of a `go.work` text (`go_work_spec`): a `go.work` declares a
/// workspace and no package.
pub fn go_work_members(text: &str) -> (r: Option<ParsedManifest>)
    ensures
        match go_work_spec(text@) {
            Some(m) => r matches Some(p) && string_views(p.members@) == m && p.declares_workspace
                && !p.declares_package,
            None => r is None,
        },
{
    let t = chars_of(text);
    let lines = split_lines(t.as_slice());
    let ghost lv = views(lines@);
    let mut members: Vec<String> = Vec::new();
    let mut in_use = false;
    let mut i: usize = 0;
    assert(lv.take(0) =~= Seq::<Seq<char>>::empty());
    while i < lines.len()
        invariant
            lv == views(lines@),
            lv == lines_of(text@),
            i <= lines.len(),
            (string_views(members@), in_use) == go_fold(lv.take(i as int)),
        decreases lines.len() - i,
    {
        let raw = lines[i].as_slice();
        assert(lv[i as int] == raw@);
        assert(lv.take(i + 1).drop_last() =~= lv.take(i as int));
        let ghost before = string_views(members@);
        let cut = cut_comment(raw);
        let line_v = trimmed(cut.as_slice());
        let line = line_v.as_slice();
        if equals_str(line, "use (") {
            in_use = true;
        } else if in_use && equals_str(line, ")") {
            in_use = false;
        } else if starts_with_str(line, "use ") {
            proof { reveal_strlit("use "); }
            let value = trim_matches_char(slice_of(line, 4, line.len()).as_slice(), '"');
            members.push(string_of(value.as_slice()));
            assert(string_views(members@) =~= before.push(value@));
        } else if in_use && line.len() > 0 {
            let value = trim_matches_char(line, '"');
            members.push(string_of(value.as_slice()));
            assert(string_views(members@) =~= before.push(value@));
        }
        i = i + 1;
    }
    assert(lv.take(lines.len() as int) =~= lv);
    if in_use {
        None
    } else {
        Some(ParsedManifest { members, declares_workspace: true, declares_package: false })
    }
}

} // verus!

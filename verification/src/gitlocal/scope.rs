//! Path arithmetic of the repository scope graph: member patterns,
//! containment, parents, final components and member normalisation.

use vstd::prelude::*;
use crate::fs::containment::{split_on, split_segments, views};
use crate::markdown::document::{strip_dot_slash, strip_leading_dot_slash};
use crate::profiles::signals::strip_trailing;
use crate::text::{
    chars_of, equals_str, has_char, has_prefix, last_index_before, last_path_segment,
    last_segment, lemma_last_index_before, replace_chars, replace_char, rfind_char, same_chars,
    slice_of, starts_with, string_of,
};

verus! {

/// The manifest kinds that declare workspaces.
#[derive(Debug, Clone, Copy, PartialEq, Eq, Structural)]
pub enum WorkspaceManifestKind {
    Cargo,
    Npm,
    Pyproject,
    GoWork,
}

pub open spec fn manifest_kind_of(path: Seq<char>) -> Option<WorkspaceManifestKind> {
    let name = last_segment(path);
    if name == "Cargo.toml"@ {
        Some(WorkspaceManifestKind::Cargo)
    } else if name == "package.json"@ {
        Some(WorkspaceManifestKind::Npm)
    } else if name == "pyproject.toml"@ {
        Some(WorkspaceManifestKind::Pyproject)
    } else if name == "go.work"@ {
        Some(WorkspaceManifestKind::GoWork)
    } else {
        None
    }
}

/// The workspace manifest kind of a file, by its final component.
pub fn manifest_kind(path: &str) -> (r: Option<WorkspaceManifestKind>)
    ensures
        r == manifest_kind_of(path@),
{
    let p = chars_of(path);
    let name_v = last_path_segment(p.as_slice());
    let name = name_v.as_slice();
    if equals_str(name, "Cargo.toml") {
        Some(WorkspaceManifestKind::Cargo)
    } else if equals_str(name, "package.json") {
        Some(WorkspaceManifestKind::Npm)
    } else if equals_str(name, "pyproject.toml") {
        Some(WorkspaceManifestKind::Pyproject)
    } else if equals_str(name, "go.work") {
        Some(WorkspaceManifestKind::GoWork)
    } else {
        None
    }
}

/// A member pattern matches a path segment by segment, `*` matching any
/// one segment.
pub open spec fn member_pattern_matches(pattern: Seq<char>, path: Seq<char>) -> bool {
    let ps = split_on(pattern, '/');
    let qs = split_on(path, '/');
    ps.len() == qs.len() && forall|k: int| 0 <= k < ps.len() ==> (#[trigger] ps[k] == seq!['*'] || ps[k] == qs[k])
}

/// `member_pattern_matches(pattern, path)`.
pub fn member_matches(pattern: &str, path: &str) -> (r: bool)
    ensures
        r == member_pattern_matches(pattern@, path@),
{
    let pc = chars_of(pattern);
    let qc = chars_of(path);
    let ps = split_segments(pc.as_slice(), '/');
    let qs = split_segments(qc.as_slice(), '/');
    if ps.len() != qs.len() {
        return false;
    }
    let mut k: usize = 0;
    while k < ps.len()
        invariant
            k <= ps.len(),
            ps.len() == qs.len(),
            views(ps@) == split_on(pattern@, '/'),
            views(qs@) == split_on(path@, '/'),
            forall|m: int| 0 <= m < k ==> (#[trigger] split_on(pattern@, '/')[m] == seq!['*']
                || split_on(pattern@, '/')[m] == split_on(path@, '/')[m]),
        decreases ps.len() - k,
    {
        assert(views(ps@)[k as int] == ps@[k as int]@);
        assert(views(qs@)[k as int] == qs@[k as int]@);
        let star = ps[k].len() == 1 && ps[k][0] == '*';
        proof {
            if star {
                assert(ps@[k as int]@ =~= seq!['*']);
            }
            if ps@[k as int]@ == seq!['*'] {
                assert(ps@[k as int]@[0] == '*');
            }
        }
        if !star && !same_chars(ps[k].as_slice(), qs[k].as_slice()) {
            return false;
        }
        k = k + 1;
    }
    true
}

/// `child` is `parent` or below it; everything is below the empty path.
pub open spec fn path_contains(parent: Seq<char>, child: Seq<char>) -> bool {
    parent.len() == 0 || child == parent
        || (has_prefix(child, parent) && child.len() > parent.len() && child[parent.len() as int] == '/')
}

/// `path_contains(parent, child)`.
pub fn contains_path(parent: &str, child: &str) -> (r: bool)
    ensures
        r == path_contains(parent@, child@),
{
    let p = chars_of(parent);
    let c = chars_of(child);
    if p.len() == 0 || same_chars(c.as_slice(), p.as_slice()) {
        return true;
    }
    starts_with(c.as_slice(), p.as_slice()) && c.len() > p.len() && c[p.len()] == '/'
}

/// What precedes the last `/` of a path (nothing where it has none).
pub open spec fn parent_of(path: Seq<char>) -> Seq<char> {
    let i = last_index_before(path, '/', path.len() as int);
    if i < 0 {
        Seq::empty()
    } else {
        path.subrange(0, i)
    }
}

/// `parent_of(path)`.
pub fn parent_path(path: &str) -> (r: String)
    ensures
        r@ == parent_of(path@),
{
    let p = chars_of(path);
    proof { lemma_last_index_before(p@, '/', p@.len() as int); }
    match rfind_char(p.as_slice(), '/') {
        Some(i) => string_of(slice_of(p.as_slice(), 0, i).as_slice()),
        None => String::new(),
    }
}

/// What follows the last `/` of a path.
pub fn final_component(path: &str) -> (r: String)
    ensures
        r@ == last_segment(path@),
{
    let p = chars_of(path);
    string_of(last_path_segment(p.as_slice()).as_slice())
}

/// A member path with `/` for `\`, without leading `./` and trailing `/`.
pub open spec fn normalized_member(value: Seq<char>) -> Seq<char> {
    strip_trailing(strip_dot_slash(replace_char(value, '\\', '/')), '/')
}

/// `normalized_member(value)`.
pub fn normalize_member(value: &str) -> (r: String)
    ensures
        r@ == normalized_member(value@),
{
    let v = chars_of(value);
    let slashed = replace_chars(v.as_slice(), '\\', '/');
    let stripped = strip_leading_dot_slash(slashed.as_slice());
    let mut end: usize = stripped.len();
    assert(stripped@.subrange(0, end as int) =~= stripped@);
    while end > 0 && stripped[end - 1] == '/'
        invariant
            end <= stripped.len(),
            strip_trailing(stripped@, '/') == strip_trailing(stripped@.subrange(0, end as int), '/'),
        decreases end,
    {
        assert(stripped@.subrange(0, end as int).drop_last() =~= stripped@.subrange(0, end - 1));
        end = end - 1;
    }
    proof {
        let t = stripped@.subrange(0, end as int);
        if t.len() > 0 {
            assert(t.last() == stripped@[end - 1]);
        }
    }
    string_of(slice_of(stripped.as_slice(), 0, end).as_slice())
}

/// The normalised member below `parent`.
pub open spec fn joined_member(parent: Seq<char>, member: Seq<char>) -> Seq<char> {
    if parent.len() == 0 {
        normalized_member(member)
    } else {
        parent + seq!['/'] + normalized_member(member)
    }
}

/// `joined_member(parent, member)`.
pub fn join_relative(parent: &str, member: &str) -> (r: String)
    ensures
        r@ == joined_member(parent@, member@),
{
    let m = normalize_member(member);
    let p = chars_of(parent);
    if p.len() == 0 {
        return m;
    }
    let mut out = p;
    out.push('/');
    let mut mc = chars_of(m.as_str());
    out.append(&mut mc);
    assert(out@ =~= parent@ + seq!['/'] + normalized_member(member@));
    string_of(out.as_slice())
}

} // verus!

//! Repository-relative paths built from the components of a rooted path.

use vstd::prelude::*;
use crate::text::{chars_of, string_of};

verus! {

/// One component of a filesystem path, as `std::path::Component` splits it;
/// a normal component carries its text (lossily decoded) and whether it was
/// valid UTF-8.
#[derive(Debug, Clone, PartialEq, Eq)]
pub enum PathComponent {
    Prefix(String),
    RootDir,
    CurDir,
    ParentDir,
    Normal { text: String, utf8: bool },
}

pub enum ComponentView {
    Prefix(Seq<char>),
    RootDir,
    CurDir,
    ParentDir,
    Normal(Seq<char>, bool),
}

impl View for PathComponent {
    type V = ComponentView;

    open spec fn view(&self) -> ComponentView {
        match self {
            PathComponent::Prefix(p) => ComponentView::Prefix(p@),
            PathComponent::RootDir => ComponentView::RootDir,
            PathComponent::CurDir => ComponentView::CurDir,
            PathComponent::ParentDir => ComponentView::ParentDir,
            PathComponent::Normal { text, utf8 } => ComponentView::Normal(text@, *utf8),
        }
    }
}

pub open spec fn component_views(v: Seq<PathComponent>) -> Seq<ComponentView> {
    v.map_values(|c: PathComponent| c@)
}

#[derive(Debug, Clone, Copy, PartialEq, Eq, Structural)]
pub enum RepoPathError {
    OutsideRepository,
    NonNormalComponent,
    NonUtf8,
    Empty,
}

/// A non-empty `/`-joined path of normal UTF-8 components below a root.
#[derive(Debug, Clone, PartialEq, Eq)]
pub struct RepoRelativePath(String);

/// The text of a component as `Component::as_os_str` shows it.
pub open spec fn component_text(c: ComponentView) -> Seq<char> {
    match c {
        ComponentView::Prefix(p) => p,
        ComponentView::RootDir => seq!['/'],
        ComponentView::CurDir => seq!['.'],
        ComponentView::ParentDir => seq!['.', '.'],
        ComponentView::Normal(t, _) => t,
    }
}

/// The texts of the components joined with `/`.
pub open spec fn joined_components(cs: Seq<ComponentView>) -> Seq<char>
    decreases cs.len(),
{
    if cs.len() == 0 {
        Seq::<char>::empty()
    } else if cs.len() == 1 {
        component_text(cs[0])
    } else {
        joined_components(cs.drop_last()) + seq!['/'] + component_text(cs.last())
    }
}

/// `Path::strip_prefix`: the components after `root` when `root` is a
/// component prefix of `path`.
pub open spec fn strip_components(root: Seq<ComponentView>, path: Seq<ComponentView>) -> Option<Seq<ComponentView>> {
    if root.len() <= path.len() && path.subrange(0, root.len() as int) == root {
        Some(path.subrange(root.len() as int, path.len() as int))
    } else {
        None
    }
}

/// The error for the first component that is not a normal UTF-8 one.
pub open spec fn first_bad(rest: Seq<ComponentView>) -> Option<RepoPathError>
    decreases rest.len(),
{
    if rest.len() == 0 {
        None
    } else {
        match rest[0] {
            ComponentView::Normal(_, ok) => if ok { first_bad(rest.drop_first()) } else { Some(RepoPathError::NonUtf8) },
            _ => Some(RepoPathError::NonNormalComponent),
        }
    }
}

pub open spec fn from_rooted_result(root: Seq<ComponentView>, path: Seq<ComponentView>) -> Result<Seq<char>, RepoPathError> {
    match strip_components(root, path) {
        None => Err(RepoPathError::OutsideRepository),
        Some(rest) => match first_bad(rest) {
            Some(e) => Err(e),
            None => if joined_components(rest).len() == 0 {
                Err(RepoPathError::Empty)
            } else {
                Ok(joined_components(rest))
            },
        },
    }
}

fn component_eq(a: &PathComponent, b: &PathComponent) -> (r: bool)
    ensures
        r == (a@ == b@),
{
    match (a, b) {
        (PathComponent::Prefix(x), PathComponent::Prefix(y)) => {
            let xs = chars_of(x.as_str());
            let ys = chars_of(y.as_str());
            crate::text::same_chars(xs.as_slice(), ys.as_slice())
        },
        (PathComponent::RootDir, PathComponent::RootDir) => true,
        (PathComponent::CurDir, PathComponent::CurDir) => true,
        (PathComponent::ParentDir, PathComponent::ParentDir) => true,
        (PathComponent::Normal { text: x, utf8: u }, PathComponent::Normal { text: y, utf8: v }) => {
            let xs = chars_of(x.as_str());
            let ys = chars_of(y.as_str());
            *u == *v && crate::text::same_chars(xs.as_slice(), ys.as_slice())
        },
        _ => false,
    }
}

/// `strip_components(root, path)`, as the index where the rest starts.
fn strip_prefix_len(root: &[PathComponent], path: &[PathComponent]) -> (r: Option<usize>)
    ensures
        match strip_components(component_views(root@), component_views(path@)) {
            Some(_) => r == Some(root.len()),
            None => r is None,
        },
{
    let ghost rv = component_views(root@);
    let ghost pv = component_views(path@);
    if root.len() > path.len() {
        return None;
    }
    let mut i: usize = 0;
    while i < root.len()
        invariant
            rv == component_views(root@),
            pv == component_views(path@),
            root.len() <= path.len(),
            i <= root.len(),
            forall|k: int| 0 <= k < i ==> pv[k] == rv[k],
        decreases root.len() - i,
    {
        if !component_eq(&root[i], &path[i]) {
            assert(pv.subrange(0, root.len() as int)[i as int] != rv[i as int]);
            return None;
        }
        i = i + 1;
    }
    assert(pv.subrange(0, root.len() as int) =~= rv);
    Some(root.len())
}

/// `component_text(c@)`.
fn component_chars(c: &PathComponent) -> (r: Vec<char>)
    ensures
        r@ == component_text(c@),
{
    match c {
        PathComponent::Prefix(p) => chars_of(p.as_str()),
        PathComponent::RootDir => {
            let v = vec!['/'];
            assert(v@ =~= seq!['/']);
            v
        },
        PathComponent::CurDir => {
            let v = vec!['.'];
            assert(v@ =~= seq!['.']);
            v
        },
        PathComponent::ParentDir => {
            let v = vec!['.', '.'];
            assert(v@ =~= seq!['.', '.']);
            v
        },
        PathComponent::Normal { text, .. } => chars_of(text.as_str()),
    }
}

/// `joined_components` of `cs[start..]`.
fn join_components(cs: &[PathComponent], start: usize) -> (r: Vec<char>)
    requires
        start <= cs.len(),
    ensures
        r@ == joined_components(component_views(cs@).subrange(start as int, cs.len() as int)),
{
    let ghost all = component_views(cs@).subrange(start as int, cs.len() as int);
    let mut out: Vec<char> = Vec::new();
    let mut i: usize = start;
    assert(all.subrange(0, 0) =~= Seq::<ComponentView>::empty());
    while i < cs.len()
        invariant
            all == component_views(cs@).subrange(start as int, cs.len() as int),
            start <= i <= cs.len(),
            out@ == joined_components(all.subrange(0, i - start)),
        decreases cs.len() - i,
    {
        let k = i - start;
        assert(all.subrange(0, k + 1).drop_last() =~= all.subrange(0, k as int));
        assert(all.subrange(0, k + 1).last() == cs@[i as int]@);
        if i > start {
            out.push('/');
        }
        let piece = component_chars(&cs[i]);
        let mut j: usize = 0;
        let ghost base = out@;
        while j < piece.len()
            invariant
                j <= piece.len(),
                out@ == base + piece@.subrange(0, j as int),
            decreases piece.len() - j,
        {
            out.push(piece[j]);
            j = j + 1;
            assert(out@ =~= base + piece@.subrange(0, j as int));
        }
        assert(piece@.subrange(0, piece.len() as int) =~= piece@);
        proof {
            if k == 0 {
                assert(all.subrange(0, 1) =~= seq![cs@[i as int]@]);
                assert(out@ =~= piece@);
            }
        }
        i = i + 1;
    }
    assert(all.subrange(0, cs.len() - start) =~= all);
    out
}

impl RepoRelativePath {
    pub closed spec fn text(&self) -> Seq<char> {
        self.0@
    }

    /// The path of `path` below `root`, joined with `/`.
    pub fn from_rooted(root: &[PathComponent], path: &[PathComponent]) -> (r: Result<Self, RepoPathError>)
        ensures
            match from_rooted_result(component_views(root@), component_views(path@)) {
                Ok(t) => r matches Ok(p) && p.text() == t,
                Err(e) => r matches Err(e2) && e2 == e,
            },
    {
        let ghost pv = component_views(path@);
        let start = match strip_prefix_len(root, path) {
            Some(n) => n,
            None => { return Err(RepoPathError::OutsideRepository); },
        };
        let ghost rest = pv.subrange(start as int, pv.len() as int);
        let mut i = start;
        assert(rest.skip(0) =~= rest);
        while i < path.len()
            invariant
                pv == component_views(path@),
                rest == pv.subrange(start as int, pv.len() as int),
                strip_components(component_views(root@), pv) == Some(rest),
                start <= i <= path.len(),
                first_bad(rest) == first_bad(rest.skip(i - start)),
            decreases path.len() - i,
        {
            assert(rest.skip(i - start).drop_first() =~= rest.skip(i - start + 1));
            assert(rest.skip(i - start)[0] == path@[i as int]@);
            match &path[i] {
                PathComponent::Normal { utf8, .. } => {
                    if !*utf8 {
                        return Err(RepoPathError::NonUtf8);
                    }
                },
                _ => { return Err(RepoPathError::NonNormalComponent); },
            }
            i = i + 1;
        }
        assert(rest.skip(path.len() - start) =~= Seq::<ComponentView>::empty());
        let value = join_components(path, start);
        if value.len() == 0 {
            return Err(RepoPathError::Empty);
        }
        Ok(RepoRelativePath(string_of(value.as_slice())))
    }

    pub fn as_str(&self) -> (r: &str)
        ensures
            r@ == self.text(),
    {
        self.0.as_str()
    }

    pub fn into_string(self) -> (r: String)
        ensures
            r@ == self.text(),
    {
        self.0
    }
}

/// `path` below `root` joined with `/` (all of `path` when `root` is not a
/// prefix of it), each component shown as `as_os_str` shows it.
pub open spec fn relative_text(root: Seq<ComponentView>, path: Seq<ComponentView>) -> Seq<char> {
    match strip_components(root, path) {
        Some(rest) => joined_components(rest),
        None => joined_components(path),
    }
}

/// `relative_text(root, path)`: the walk's display form of a path.
pub fn normalize_relative_path(root: &[PathComponent], path: &[PathComponent]) -> (r: String)
    ensures
        r@ == relative_text(component_views(root@), component_views(path@)),
{
    let start = match strip_prefix_len(root, path) {
        Some(n) => n,
        None => 0,
    };
    assert(component_views(path@).subrange(0, path.len() as int) =~= component_views(path@));
    let value = join_components(path, start);
    string_of(value.as_slice())
}

} // verus!

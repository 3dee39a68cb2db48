//! The repository scope graph under a node budget: nodes keyed by kind and
//! path, numbered from 1 in the order they were first added; edges kept
//! once each, in order, never from a node to itself.

use vstd::prelude::*;
use crate::gitlocal::observe::{CoverageIncompleteReason, CoverageStatus};
use crate::gitlocal::scope::{contains_path, path_contains};
use crate::text::same_chars;
use crate::text::{chars_of, ends_with_str, equals_str, has_suffix, last_segment};
use crate::fs::records::{FileKind, FileRecord};
use crate::gitlocal::scope::{final_component, join_relative, joined_member, member_matches, member_pattern_matches, normalize_member, normalized_member, parent_of, parent_path};
use crate::gitlocal::gowork::{lines_of, split_lines};
use crate::fs::containment::views;
use crate::text::{has_prefix, trim, trimmed};

verus! {

#[derive(Debug, Clone, Copy, PartialEq, Eq, Structural)]
pub enum ScopeNodeKind {
    Repository,
    Workspace,
    Package,
    Documentation,
    Example,
    Fixture,
    Submodule,
}

#[derive(Debug, Clone, Copy, PartialEq, Eq, Structural)]
pub enum ScopeEdgeKind {
    Contains,
    DeclaresMember,
    PackageManifest,
    Documentation,
    Example,
    Fixture,
    SubmoduleBoundary,
}

/// The rank by which edges of one pair of nodes are ordered.
pub open spec fn edge_rank_spec(kind: ScopeEdgeKind) -> u8 {
    match kind {
        ScopeEdgeKind::Contains => 0,
        ScopeEdgeKind::DeclaresMember => 1,
        ScopeEdgeKind::PackageManifest => 2,
        ScopeEdgeKind::Documentation => 3,
        ScopeEdgeKind::Example => 4,
        ScopeEdgeKind::Fixture => 5,
        ScopeEdgeKind::SubmoduleBoundary => 6,
    }
}

pub fn edge_rank(kind: ScopeEdgeKind) -> (r: u8)
    ensures
        r == edge_rank_spec(kind),
{
    match kind {
        ScopeEdgeKind::Contains => 0,
        ScopeEdgeKind::DeclaresMember => 1,
        ScopeEdgeKind::PackageManifest => 2,
        ScopeEdgeKind::Documentation => 3,
        ScopeEdgeKind::Example => 4,
        ScopeEdgeKind::Fixture => 5,
        ScopeEdgeKind::SubmoduleBoundary => 6,
    }
}

pub open spec fn edge_kind_of(rank: u8) -> ScopeEdgeKind {
    if rank == 0 {
        ScopeEdgeKind::Contains
    } else if rank == 1 {
        ScopeEdgeKind::DeclaresMember
    } else if rank == 2 {
        ScopeEdgeKind::PackageManifest
    } else if rank == 3 {
        ScopeEdgeKind::Documentation
    } else if rank == 4 {
        ScopeEdgeKind::Example
    } else if rank == 5 {
        ScopeEdgeKind::Fixture
    } else {
        ScopeEdgeKind::SubmoduleBoundary
    }
}

fn edge_from_rank(rank: u8) -> (r: ScopeEdgeKind)
    ensures
        r == edge_kind_of(rank),
{
    if rank == 0 {
        ScopeEdgeKind::Contains
    } else if rank == 1 {
        ScopeEdgeKind::DeclaresMember
    } else if rank == 2 {
        ScopeEdgeKind::PackageManifest
    } else if rank == 3 {
        ScopeEdgeKind::Documentation
    } else if rank == 4 {
        ScopeEdgeKind::Example
    } else if rank == 5 {
        ScopeEdgeKind::Fixture
    } else {
        ScopeEdgeKind::SubmoduleBoundary
    }
}

#[derive(Debug, Clone, PartialEq, Eq)]
pub struct ScopeNode {
    pub id: u32,
    pub kind: ScopeNodeKind,
    pub path: String,
    pub manifest: Option<String>,
}

#[derive(Debug, Clone, Copy, PartialEq, Eq, Structural)]
pub struct ScopeEdge {
    pub from: u32,
    pub to: u32,
    pub kind: ScopeEdgeKind,
}

/// Edge keys in order: by source, then target, then rank.
pub open spec fn edge_lt(a: (u32, u32, u8), b: (u32, u32, u8)) -> bool {
    a.0 < b.0 || (a.0 == b.0 && (a.1 < b.1 || (a.1 == b.1 && a.2 < b.2)))
}

fn edge_less(a: (u32, u32, u8), b: (u32, u32, u8)) -> (r: bool)
    ensures
        r == edge_lt(a, b),
{
    a.0 < b.0 || (a.0 == b.0 && (a.1 < b.1 || (a.1 == b.1 && a.2 < b.2)))
}

pub open spec fn strictly_sorted(e: Seq<(u32, u32, u8)>) -> bool {
    forall|i: int, j: int| 0 <= i < j < e.len() ==> edge_lt(#[trigger] e[i], #[trigger] e[j])
}

/// A node as values: its kind, path and manifest.
pub open spec fn node_key(n: ScopeNode) -> (ScopeNodeKind, Seq<char>) {
    (n.kind, n.path@)
}

pub struct ScopeGraphBuilder {
    max_nodes: u32,
    truncated: bool,
    nodes: Vec<ScopeNode>,
    edges: Vec<(u32, u32, u8)>,
}

impl ScopeGraphBuilder {
    /// The graph's invariant: within the budget, ids `1..=n` in order,
    /// one node per kind and path, edges strictly ordered and never from a
    /// node to itself.
    pub closed spec fn well_formed(&self) -> bool {
        &&& self.nodes@.len() <= self.max_nodes
        &&& forall|i: int| 0 <= i < self.nodes@.len() ==> (#[trigger] self.nodes@[i]).id == i + 1
        &&& forall|i: int, j: int| 0 <= i < j < self.nodes@.len() ==> node_key(#[trigger] self.nodes@[i]) != node_key(#[trigger] self.nodes@[j])
        &&& strictly_sorted(self.edges@)
        &&& forall|i: int| 0 <= i < self.edges@.len() ==> (#[trigger] self.edges@[i]).0 != self.edges@[i].1
        &&& forall|i: int| 0 <= i < self.edges@.len() ==> (#[trigger] self.edges@[i]).2 <= 6
    }

    pub closed spec fn node_seq(&self) -> Seq<ScopeNode> {
        self.nodes@
    }

    pub closed spec fn edge_seq(&self) -> Seq<(u32, u32, u8)> {
        self.edges@
    }

    pub closed spec fn limit(&self) -> u32 {
        self.max_nodes
    }

    pub closed spec fn is_truncated(&self) -> bool {
        self.truncated
    }

    pub fn new(max_nodes: u32) -> (r: Self)
        ensures
            r.well_formed(),
            r.node_seq().len() == 0,
            r.edge_seq().len() == 0,
            r.limit() == max_nodes,
            !r.is_truncated(),
    {
        ScopeGraphBuilder { max_nodes, truncated: false, nodes: Vec::new(), edges: Vec::new() }
    }

    /// The index of the node with this kind and path.
    fn find_node(&self, kind: ScopeNodeKind, path: &str) -> (r: Option<usize>)
        ensures
            match r {
                Some(i) => i < self.nodes@.len() && node_key(self.nodes@[i as int]) == (kind, path@),
                None => forall|i: int| 0 <= i < self.nodes@.len() ==> node_key(#[trigger] self.nodes@[i]) != (kind, path@),
            },
    {
        let target = chars_of(path);
        let mut i: usize = 0;
        while i < self.nodes.len()
            invariant
                i <= self.nodes@.len(),
                target@ == path@,
                forall|j: int| 0 <= j < i ==> node_key(#[trigger] self.nodes@[j]) != (kind, path@),
            decreases self.nodes.len() - i,
        {
            let candidate = chars_of(self.nodes[i].path.as_str());
            if self.nodes[i].kind == kind && same_chars(candidate.as_slice(), target.as_slice()) {
                return Some(i);
            }
            i = i + 1;
        }
        None
    }

    /// The id of the node with this kind and path, if there is one.
    pub fn node_id(&self, kind: ScopeNodeKind, path: &str) -> (r: Option<u32>)
        requires
            self.well_formed(),
        ensures
            match r {
                Some(id) => 1 <= id <= self.node_seq().len() && node_key(self.node_seq()[id - 1]) == (kind, path@),
                None => forall|i: int| 0 <= i < self.node_seq().len() ==> node_key(#[trigger] self.node_seq()[i]) != (kind, path@),
            },
    {
        match self.find_node(kind, path) {
            Some(i) => Some(self.nodes[i].id),
            None => None,
        }
    }

    /// Adds the node of this kind and path, or finds it: its id; `None`,
    /// marking the graph truncated, when the budget leaves no room.
    pub fn add_node(&mut self, kind: ScopeNodeKind, path: String, manifest: Option<String>) -> (r: Option<u32>)
        requires
            old(self).well_formed(),
        ensures
            final(self).well_formed(),
            final(self).limit() == old(self).limit(),
            final(self).edge_seq() == old(self).edge_seq(),
            match r {
                Some(id) => 1 <= id <= final(self).node_seq().len() && node_key(final(self).node_seq()[id - 1]) == (kind, path@),
                None => true,
            },
            (exists|i: int| 0 <= i < old(self).node_seq().len() && node_key(#[trigger] old(self).node_seq()[i]) == (kind, path@)) ==>
                final(self).node_seq() == old(self).node_seq() && final(self).is_truncated() == old(self).is_truncated() && r is Some,
            (forall|i: int| 0 <= i < old(self).node_seq().len() ==> node_key(#[trigger] old(self).node_seq()[i]) != (kind, path@)) ==> {
                if old(self).node_seq().len() >= old(self).limit() {
                    r is None && final(self).node_seq() == old(self).node_seq() && final(self).is_truncated()
                } else {
                    r == Some((old(self).node_seq().len() + 1) as u32)
                        && final(self).node_seq() == old(self).node_seq().push(ScopeNode { id: (old(self).node_seq().len() + 1) as u32, kind, path, manifest })
                        && final(self).is_truncated() == old(self).is_truncated()
                }
            },
            (final(self).model(), r) == add_node_model(old(self).model(), kind, path@, crate::github::yaml::opt_view(manifest)),
    {
        let ghost mview = crate::github::yaml::opt_view(manifest);
        proof { lemma_key_index(self.nodes@, kind, path@, self.nodes@.len() as int); }
        let ghost before = self.nodes@;
        match self.find_node(kind, path.as_str()) {
            Some(i) => {
                proof {
                    let v = before.map_values(|x: ScopeNode| node_view(x));
                    match key_index(v, kind, path@, before.len() as int) {
                        Some(j) => {
                            if j != i {
                                if j < i {
                                    assert(node_key(before[j]) != node_key(before[i as int]));
                                } else {
                                    assert(node_key(before[i as int]) != node_key(before[j]));
                                }
                            }
                        },
                        None => {},
                    }
                }
                return Some(self.nodes[i].id);
            },
            None => {},
        }
        if self.nodes.len() >= self.max_nodes as usize {
            self.truncated = true;
            return None;
        }
        let id = (self.nodes.len() + 1) as u32;
        self.nodes.push(ScopeNode { id, kind, path, manifest });
        proof {
            assert(self.nodes@.map_values(|x: ScopeNode| node_view(x)) =~= before.map_values(|x: ScopeNode| node_view(x)).push((kind, path@, mview)));
        }
        Some(id)
    }

    /// Adds the edge (once) unless it goes from a node to itself.
    pub fn add_edge(&mut self, from: u32, to: u32, kind: ScopeEdgeKind)
        requires
            old(self).well_formed(),
        ensures
            final(self).well_formed(),
            final(self).node_seq() == old(self).node_seq(),
            final(self).limit() == old(self).limit(),
            final(self).is_truncated() == old(self).is_truncated(),
            forall|x: (u32, u32, u8)| final(self).edge_seq().contains(x) <==>
                (old(self).edge_seq().contains(x) || (from != to && x == (from, to, edge_rank_spec(kind)))),
            final(self).model() == add_edge_model(old(self).model(), from, to, kind),
    {
        if from == to {
            return;
        }
        let e = (from, to, edge_rank(kind));
        let ghost old_edges = self.edges@;
        let mut i: usize = 0;
        while i < self.edges.len() && edge_less(self.edges[i], e)
            invariant
                i <= self.edges@.len(),
                forall|j: int| 0 <= j < i ==> edge_lt(#[trigger] self.edges@[j], e),
            decreases self.edges.len() - i,
        {
            i = i + 1;
        }
        if i < self.edges.len() && self.edges[i].0 == e.0 && self.edges[i].1 == e.1 && self.edges[i].2 == e.2 {
            proof {
                assert(self.edges@[i as int] == e);
                assert(self.edges@.to_set() =~= old_edges.to_set().insert(e));
            }
            return;
        }
        let ghost before = self.edges@;
        self.edges.insert(i, e);
        proof {
            let after = self.edges@;
            assert(after =~= before.subrange(0, i as int).push(e) + before.subrange(i as int, before.len() as int));
            assert forall|a: int, b: int| 0 <= a < b < after.len() implies edge_lt(#[trigger] after[a], #[trigger] after[b]) by {
                if b < i {
                    assert(after[a] == before[a] && after[b] == before[b]);
                } else if b == i {
                    assert(after[a] == before[a]);
                } else if a < i {
                    assert(after[a] == before[a] && after[b] == before[b - 1]);
                    assert(edge_lt(before[a], e));
                    assert(!edge_lt(before[i as int], e));
                } else if a == i {
                    assert(after[b] == before[b - 1]);
                    assert(!edge_lt(before[i as int], e) && before[i as int] != e);
                } else {
                    assert(after[a] == before[a - 1] && after[b] == before[b - 1]);
                }
            }
            assert forall|x: (u32, u32, u8)| after.contains(x) <==> (before.contains(x) || x == e) by {
                if after.contains(x) {
                    let k = choose|k: int| 0 <= k < after.len() && after[k] == x;
                    if k < i {
                        assert(before[k] == x);
                    } else if k > i {
                        assert(before[k - 1] == x);
                    }
                }
                if before.contains(x) {
                    let k = choose|k: int| 0 <= k < before.len() && before[k] == x;
                    if k < i {
                        assert(after[k] == x);
                    } else {
                        assert(after[k + 1] == x);
                    }
                }
                if x == e {
                    assert(after[i as int] == e);
                }
            }
            assert forall|k: int| 0 <= k < after.len() implies (#[trigger] after[k]).0 != after[k].1 && after[k].2 <= 6 by {
                if k < i {
                    assert(after[k] == before[k]);
                } else if k > i {
                    assert(after[k] == before[k - 1]);
                }
            }
            assert(after.to_set() =~= before.to_set().insert(e));
        }
    }
}

/// Among the first `n` nodes, the index of the container (repository,
/// workspace or package) holding `path` with the longest path, the last
/// of the longest where several are.
pub open spec fn closest_from(nodes: Seq<ScopeNode>, path: Seq<char>, n: int) -> Option<int>
    decreases n,
{
    if n <= 0 {
        None
    } else {
        let prev = closest_from(nodes, path, n - 1);
        let node = nodes[n - 1];
        if (node.kind == ScopeNodeKind::Repository || node.kind == ScopeNodeKind::Workspace || node.kind == ScopeNodeKind::Package)
            && path_contains(node.path@, path)
            && (prev matches Some(p) ==> nodes[p].path@.len() <= node.path@.len()) {
            Some(n - 1)
        } else {
            prev
        }
    }
}

proof fn lemma_closest_in_range(nodes: Seq<ScopeNode>, path: Seq<char>, n: int)
    ensures
        closest_from(nodes, path, n) matches Some(p) ==> 0 <= p < n,
    decreases n,
{
    if n > 0 {
        lemma_closest_in_range(nodes, path, n - 1);
    }
}

impl ScopeGraphBuilder {
    /// The id of the innermost container that holds `path`: the one with
    /// the longest path, the last added where several tie.
    pub fn closest_container(&self, path: &str) -> (r: Option<u32>)
        requires
            self.well_formed(),
        ensures
            match closest_from(self.node_seq(), path@, self.node_seq().len() as int) {
                Some(p) => r == Some(self.node_seq()[p].id),
                None => r is None,
            },
    {
        let mut best: Option<usize> = None;
        let mut best_len: usize = 0;
        let mut i: usize = 0;
        while i < self.nodes.len()
            invariant
                i <= self.nodes@.len(),
                match closest_from(self.nodes@, path@, i as int) {
                    Some(p) => best == Some(p as usize) && best_len == self.nodes@[p].path@.len(),
                    None => best is None,
                },
            decreases self.nodes.len() - i,
        {
            proof { lemma_closest_in_range(self.nodes@, path@, i as int); }
            let node = &self.nodes[i];
            let kind_ok = node.kind == ScopeNodeKind::Repository || node.kind == ScopeNodeKind::Workspace || node.kind == ScopeNodeKind::Package;
            if kind_ok && contains_path(node.path.as_str(), path) {
                let len = chars_of(node.path.as_str()).len();
                if best.is_none() || best_len <= len {
                    best = Some(i);
                    best_len = len;
                }
            }
            i = i + 1;
        }
        proof { lemma_closest_in_range(self.nodes@, path@, self.nodes@.len() as int); }
        match best {
            Some(p) => Some(self.nodes[p].id),
            None => None,
        }
    }

    /// The nodes in id order, the edges in order, and whether the node
    /// budget cut the graph short.
    pub fn finish(self) -> (r: (Vec<ScopeNode>, Vec<ScopeEdge>, CoverageStatus))
        requires
            self.well_formed(),
        ensures
            r.0@ == self.node_seq(),
            r.1@.len() == self.edge_seq().len(),
            forall|i: int| 0 <= i < r.1@.len() ==> (#[trigger] r.1@[i]) == (ScopeEdge {
                from: self.edge_seq()[i].0,
                to: self.edge_seq()[i].1,
                kind: edge_kind_of(self.edge_seq()[i].2),
            }),
            r.2 == (if self.is_truncated() { CoverageStatus::Partial(CoverageIncompleteReason::LimitExceeded) } else { CoverageStatus::Complete }),
    {
        let mut edges: Vec<ScopeEdge> = Vec::new();
        let mut i: usize = 0;
        while i < self.edges.len()
            invariant
                i <= self.edges@.len(),
                edges@.len() == i,
                forall|j: int| 0 <= j < i ==> (#[trigger] edges@[j]) == (ScopeEdge {
                    from: self.edges@[j].0,
                    to: self.edges@[j].1,
                    kind: edge_kind_of(self.edges@[j].2),
                }),
            decreases self.edges.len() - i,
        {
            let (from, to, rank) = self.edges[i];
            edges.push(ScopeEdge { from, to, kind: edge_from_rank(rank) });
            i = i + 1;
        }
        let coverage = if self.truncated { CoverageStatus::Partial(CoverageIncompleteReason::LimitExceeded) } else { CoverageStatus::Complete };
        (self.nodes, edges, coverage)
    }
}

/// A node as values: its kind, path and manifest (its id is its place
/// plus one).
pub open spec fn node_view(n: ScopeNode) -> (ScopeNodeKind, Seq<char>, Option<Seq<char>>) {
    (n.kind, n.path@, crate::github::yaml::opt_view(n.manifest))
}

/// The graph as values: its nodes, its edges, whether the budget cut it
/// short, and the budget.
pub struct GraphModel {
    pub nodes: Seq<(ScopeNodeKind, Seq<char>, Option<Seq<char>>)>,
    pub edges: Set<(u32, u32, u8)>,
    pub truncated: bool,
    pub limit: u32,
}

/// The first node with this kind and path.
pub open spec fn key_index(nodes: Seq<(ScopeNodeKind, Seq<char>, Option<Seq<char>>)>, kind: ScopeNodeKind, path: Seq<char>, n: int) -> Option<int>
    decreases n,
{
    if n <= 0 {
        None
    } else {
        match key_index(nodes, kind, path, n - 1) {
            Some(i) => Some(i),
            None => if nodes[n - 1].0 == kind && nodes[n - 1].1 == path { Some(n - 1) } else { None },
        }
    }
}

/// Adding a node to the model: the id of the node of this kind and path,
/// or a new node while the budget allows, or nothing, marked truncated.
pub open spec fn add_node_model(m: GraphModel, kind: ScopeNodeKind, path: Seq<char>, manifest: Option<Seq<char>>) -> (GraphModel, Option<u32>) {
    match key_index(m.nodes, kind, path, m.nodes.len() as int) {
        Some(i) => (m, Some((i + 1) as u32)),
        None => if m.nodes.len() >= m.limit {
            (GraphModel { truncated: true, ..m }, None)
        } else {
            (GraphModel { nodes: m.nodes.push((kind, path, manifest)), ..m }, Some((m.nodes.len() + 1) as u32))
        },
    }
}

/// Adding an edge to the model, unless it goes from a node to itself.
pub open spec fn add_edge_model(m: GraphModel, from: u32, to: u32, kind: ScopeEdgeKind) -> GraphModel {
    if from == to { m } else { GraphModel { edges: m.edges.insert((from, to, edge_rank_spec(kind))), ..m } }
}

impl ScopeGraphBuilder {
    pub closed spec fn model(&self) -> GraphModel {
        GraphModel {
            nodes: self.nodes@.map_values(|n: ScopeNode| node_view(n)),
            edges: self.edges@.to_set(),
            truncated: self.truncated,
            limit: self.max_nodes,
        }
    }
}

proof fn lemma_key_index(nodes: Seq<ScopeNode>, kind: ScopeNodeKind, path: Seq<char>, n: int)
    requires
        0 <= n <= nodes.len(),
    ensures
        match key_index(nodes.map_values(|x: ScopeNode| node_view(x)), kind, path, n) {
            Some(i) => 0 <= i < n && node_key(nodes[i]) == (kind, path)
                && forall|j: int| 0 <= j < i ==> node_key(#[trigger] nodes[j]) != (kind, path),
            None => forall|j: int| 0 <= j < n ==> node_key(#[trigger] nodes[j]) != (kind, path),
        },
    decreases n,
{
    if n > 0 {
        lemma_key_index(nodes, kind, path, n - 1);
        let v = nodes.map_values(|x: ScopeNode| node_view(x));
        assert(v[n - 1] == node_view(nodes[n - 1]));
    }
}

/// The model's step for one repository file: a `go.mod` file adds its
/// directory as a package contained by the repository; a `docs`,
/// `documentation`, `example(s)` or `fixture(s)` directory adds a node of
/// that kind, tied to its innermost container (or the repository).
pub open spec fn dir_kind(name: Seq<char>) -> Option<(ScopeNodeKind, ScopeEdgeKind)> {
    if name == "docs"@ || name == "documentation"@ {
        Some((ScopeNodeKind::Documentation, ScopeEdgeKind::Documentation))
    } else if name == "example"@ || name == "examples"@ {
        Some((ScopeNodeKind::Example, ScopeEdgeKind::Example))
    } else if name == "fixture"@ || name == "fixtures"@ {
        Some((ScopeNodeKind::Fixture, ScopeEdgeKind::Fixture))
    } else {
        None
    }
}

/// `closest_from` over the model's nodes.
pub open spec fn closest_in(nodes: Seq<(ScopeNodeKind, Seq<char>, Option<Seq<char>>)>, path: Seq<char>, n: int) -> Option<int>
    decreases n,
{
    if n <= 0 {
        None
    } else {
        let prev = closest_in(nodes, path, n - 1);
        let node = nodes[n - 1];
        if (node.0 == ScopeNodeKind::Repository || node.0 == ScopeNodeKind::Workspace || node.0 == ScopeNodeKind::Package)
            && path_contains(node.1, path)
            && (prev matches Some(p) ==> nodes[p].1.len() <= node.1.len()) {
            Some(n - 1)
        } else {
            prev
        }
    }
}

proof fn lemma_closest_views(nodes: Seq<ScopeNode>, path: Seq<char>, n: int)
    requires
        0 <= n <= nodes.len(),
    ensures
        closest_in(nodes.map_values(|x: ScopeNode| node_view(x)), path, n) == closest_from(nodes, path, n),
    decreases n,
{
    if n > 0 {
        lemma_closest_views(nodes, path, n - 1);
        lemma_closest_in_range(nodes, path, n - 1);
        let v = nodes.map_values(|x: ScopeNode| node_view(x));
        assert(v[n - 1] == node_view(nodes[n - 1]));
        match closest_from(nodes, path, n - 1) {
            Some(p) => { assert(v[p] == node_view(nodes[p])); },
            None => {},
        }
    }
}

/// The model after one repository file: a `go.mod` file adds its directory
/// as a package that the repository contains; a `docs`, `documentation`,
/// `example(s)` or `fixture(s)` directory adds a node of that kind, tied to
/// its innermost container, or to the repository.
pub open spec fn file_step(m: GraphModel, repo: u32, kind: FileKind, path: Seq<char>) -> GraphModel {
    let m1 = if kind == FileKind::File && has_suffix(path, "go.mod"@) {
        let (a, id) = add_node_model(m, ScopeNodeKind::Package, parent_of(path), Some(path));
        match id {
            Some(n) => add_edge_model(a, repo, n, ScopeEdgeKind::Contains),
            None => a,
        }
    } else {
        m
    };
    if kind != FileKind::Directory {
        m1
    } else {
        match dir_kind(last_segment(path)) {
            None => m1,
            Some((k, e)) => {
                let (a, id) = add_node_model(m1, k, path, None);
                match id {
                    Some(n) => {
                        let owner = match closest_in(a.nodes, path, a.nodes.len() as int) {
                            Some(i) => (i + 1) as u32,
                            None => repo,
                        };
                        add_edge_model(a, owner, n, e)
                    },
                    None => a,
                }
            },
        }
    }
}

/// The model after the first `n` files.
pub open spec fn files_model(m: GraphModel, repo: u32, files: Seq<FileRecord>, n: int) -> GraphModel
    decreases n,
{
    if n <= 0 {
        m
    } else {
        file_step(files_model(m, repo, files, n - 1), repo, files[n - 1].kind, files[n - 1].path@)
    }
}

fn dir_kind_of(name: &str) -> (r: Option<(ScopeNodeKind, ScopeEdgeKind)>)
    ensures
        r == dir_kind(name@),
{
    let c = chars_of(name);
    let n = c.as_slice();
    if equals_str(n, "docs") || equals_str(n, "documentation") {
        Some((ScopeNodeKind::Documentation, ScopeEdgeKind::Documentation))
    } else if equals_str(n, "example") || equals_str(n, "examples") {
        Some((ScopeNodeKind::Example, ScopeEdgeKind::Example))
    } else if equals_str(n, "fixture") || equals_str(n, "fixtures") {
        Some((ScopeNodeKind::Fixture, ScopeEdgeKind::Fixture))
    } else {
        None
    }
}

fn copy_string(s: &String) -> (r: String)
    ensures
        r@ == s@,
{
    let c = chars_of(s.as_str());
    crate::text::string_of(c.as_slice())
}

impl ScopeGraphBuilder {
    /// The innermost container holding `path`, in model terms.
    fn closest_id(&self, path: &str) -> (r: Option<u32>)
        requires
            self.well_formed(),
        ensures
            r == match closest_in(self.model().nodes, path@, self.model().nodes.len() as int) {
                Some(i) => Some((i + 1) as u32),
                None => None::<u32>,
            },
    {
        proof {
            lemma_closest_views(self.nodes@, path@, self.nodes@.len() as int);
            lemma_closest_in_range(self.nodes@, path@, self.nodes@.len() as int);
        }
        self.closest_container(path)
    }

    /// Adds the nodes and edges that the repository's files give, in
    /// order, below the repository node `repository`.
    pub fn add_file_nodes(&mut self, files: &[FileRecord], repository: u32)
        requires
            old(self).well_formed(),
        ensures
            final(self).well_formed(),
            final(self).model() == files_model(old(self).model(), repository, files@, files@.len() as int),
    {
        let ghost start = self.model();
        let mut i: usize = 0;
        while i < files.len()
            invariant
                i <= files@.len(),
                self.well_formed(),
                self.model() == files_model(start, repository, files@, i as int),
            decreases files.len() - i,
        {
            let file = &files[i];
            if file.kind == FileKind::File && ends_with_str(chars_of(file.path.as_str()).as_slice(), "go.mod") {
                let parent = parent_path(file.path.as_str());
                match self.add_node(ScopeNodeKind::Package, parent, Some(copy_string(&file.path))) {
                    Some(node) => self.add_edge(repository, node, ScopeEdgeKind::Contains),
                    None => {},
                }
            }
            if file.kind == FileKind::Directory {
                let name = final_component(file.path.as_str());
                match dir_kind_of(name.as_str()) {
                    Some((k, e)) => {
                        match self.add_node(k, copy_string(&file.path), None) {
                            Some(node) => {
                                let owner = match self.closest_id(file.path.as_str()) {
                                    Some(o) => o,
                                    None => repository,
                                };
                                self.add_edge(owner, node, e);
                            },
                            None => {},
                        }
                    },
                    None => {},
                }
            }
            i = i + 1;
        }
    }
}

/// What a manifest declares, as the scope graph reads it.
#[derive(Debug, Clone, PartialEq, Eq)]
pub struct ManifestDeclaration {
    pub path: String,
    pub declares_workspace: bool,
    pub declares_package: bool,
    pub members: Vec<String>,
}

/// The model after one manifest: its directory as a workspace and as a
/// package, as it declares them, each contained by the repository (a
/// package also through its manifest).
pub open spec fn manifest_step(m: GraphModel, repo: u32, d: ManifestDeclaration) -> GraphModel {
    let parent = parent_of(d.path@);
    let m1 = if d.declares_workspace {
        let (a, id) = add_node_model(m, ScopeNodeKind::Workspace, parent, Some(d.path@));
        match id { Some(n) => add_edge_model(a, repo, n, ScopeEdgeKind::Contains), None => a }
    } else {
        m
    };
    if d.declares_package {
        let (a, id) = add_node_model(m1, ScopeNodeKind::Package, parent, Some(d.path@));
        match id {
            Some(n) => add_edge_model(add_edge_model(a, repo, n, ScopeEdgeKind::Contains), repo, n, ScopeEdgeKind::PackageManifest),
            None => a,
        }
    } else {
        m1
    }
}

pub open spec fn manifests_model(m: GraphModel, repo: u32, ds: Seq<ManifestDeclaration>, n: int) -> GraphModel
    decreases n,
{
    if n <= 0 { m } else { manifest_step(manifests_model(m, repo, ds, n - 1), repo, ds[n - 1]) }
}

/// Edges from `ws` to the packages among the first `n` nodes that
/// `pattern` matches.
pub open spec fn package_edges(m: GraphModel, nodes: Seq<(ScopeNodeKind, Seq<char>, Option<Seq<char>>)>, ws: u32, pattern: Seq<char>, n: int) -> GraphModel
    decreases n,
{
    if n <= 0 {
        m
    } else {
        let p = package_edges(m, nodes, ws, pattern, n - 1);
        if nodes[n - 1].0 == ScopeNodeKind::Package && member_pattern_matches(pattern, nodes[n - 1].1) {
            add_edge_model(p, ws, n as u32, ScopeEdgeKind::DeclaresMember)
        } else {
            p
        }
    }
}

/// The member edges of the first `k` declared members of a manifest whose
/// workspace node is `ws` and whose directory is `dir`.
pub open spec fn member_edges(m: GraphModel, ws: u32, dir: Seq<char>, members: Seq<String>, k: int) -> GraphModel
    decreases k,
{
    if k <= 0 {
        m
    } else {
        let p = member_edges(m, ws, dir, members, k - 1);
        package_edges(p, m.nodes, ws, joined_member(dir, members[k - 1]@), m.nodes.len() as int)
    }
}

/// The workspace node of a manifest: the workspace node of its directory,
/// else the repository.
pub open spec fn workspace_of(m: GraphModel, repo: u32, dir: Seq<char>) -> u32 {
    match key_index(m.nodes, ScopeNodeKind::Workspace, dir, m.nodes.len() as int) {
        Some(i) => (i + 1) as u32,
        None => repo,
    }
}

/// The declared-member edges of the first `n` manifests: from each
/// manifest's workspace node to every package a member pattern matches.
pub open spec fn declared_members_model(m: GraphModel, repo: u32, ds: Seq<ManifestDeclaration>, n: int) -> GraphModel
    decreases n,
{
    if n <= 0 {
        m
    } else {
        let p = declared_members_model(m, repo, ds, n - 1);
        let dir = parent_of(ds[n - 1].path@);
        member_edges(p, workspace_of(p, repo, dir), dir, ds[n - 1].members@, ds[n - 1].members@.len() as int)
    }
}

/// The submodule path a `.gitmodules` line names, if it is a `path =`
/// line.
pub open spec fn submodule_path(line: Seq<char>) -> Option<Seq<char>> {
    let t = trim(line);
    let key = "path ="@;
    if has_prefix(t, key) {
        Some(normalized_member(trim(t.subrange(key.len() as int, t.len() as int))))
    } else {
        None
    }
}

/// The submodules of the first `n` lines: each a node at its path,
/// bounded off from the repository.
pub open spec fn submodules_model(m: GraphModel, repo: u32, lines: Seq<Seq<char>>, n: int) -> GraphModel
    decreases n,
{
    if n <= 0 {
        m
    } else {
        let p = submodules_model(m, repo, lines, n - 1);
        match submodule_path(lines[n - 1]) {
            None => p,
            Some(path) => {
                let (a, id) = add_node_model(p, ScopeNodeKind::Submodule, path, None);
                match id { Some(node) => add_edge_model(a, repo, node, ScopeEdgeKind::SubmoduleBoundary), None => a }
            },
        }
    }
}

impl ScopeGraphBuilder {
    /// Adds the workspace and package nodes that the manifests declare.
    pub fn add_manifest_nodes(&mut self, manifests: &[ManifestDeclaration], repository: u32)
        requires
            old(self).well_formed(),
        ensures
            final(self).well_formed(),
            final(self).model() == manifests_model(old(self).model(), repository, manifests@, manifests@.len() as int),
    {
        let ghost start = self.model();
        let mut i: usize = 0;
        while i < manifests.len()
            invariant
                i <= manifests@.len(),
                self.well_formed(),
                self.model() == manifests_model(start, repository, manifests@, i as int),
            decreases manifests.len() - i,
        {
            let d = &manifests[i];
            if d.declares_workspace {
                let parent = parent_path(d.path.as_str());
                match self.add_node(ScopeNodeKind::Workspace, parent, Some(copy_string(&d.path))) {
                    Some(node) => self.add_edge(repository, node, ScopeEdgeKind::Contains),
                    None => {},
                }
            }
            if d.declares_package {
                let parent = parent_path(d.path.as_str());
                match self.add_node(ScopeNodeKind::Package, parent, Some(copy_string(&d.path))) {
                    Some(node) => {
                        self.add_edge(repository, node, ScopeEdgeKind::Contains);
                        self.add_edge(repository, node, ScopeEdgeKind::PackageManifest);
                    },
                    None => {},
                }
            }
            i = i + 1;
        }
    }

    fn workspace_id(&self, dir: &str, repository: u32) -> (r: u32)
        requires
            self.well_formed(),
        ensures
            r == workspace_of(self.model(), repository, dir@),
    {
        proof { lemma_key_index(self.nodes@, ScopeNodeKind::Workspace, dir@, self.nodes@.len() as int); }
        match self.find_node(ScopeNodeKind::Workspace, dir) {
            Some(i) => {
                proof {
                    let v = self.nodes@.map_values(|x: ScopeNode| node_view(x));
                    match key_index(v, ScopeNodeKind::Workspace, dir@, self.nodes@.len() as int) {
                        Some(j) => {
                            if j != i {
                                if j < i {
                                    assert(node_key(self.nodes@[j]) != node_key(self.nodes@[i as int]));
                                } else {
                                    assert(node_key(self.nodes@[i as int]) != node_key(self.nodes@[j]));
                                }
                            }
                        },
                        None => {},
                    }
                }
                self.nodes[i].id
            },
            None => repository,
        }
    }

    /// Adds the edges from `ws` to the packages that `pattern` matches.
    fn add_package_edges(&mut self, ws: u32, pattern: &str)
        requires
            old(self).well_formed(),
        ensures
            final(self).well_formed(),
            final(self).model() == package_edges(old(self).model(), old(self).model().nodes, ws, pattern@, old(self).model().nodes.len() as int),
            final(self).model().nodes == old(self).model().nodes,
    {
        let ghost start = self.model();
        let n = self.nodes.len();
        let mut k: usize = 0;
        while k < n
            invariant
                k <= n,
                n == start.nodes.len(),
                self.well_formed(),
                self.model().nodes == start.nodes,
                self.model() == package_edges(start, start.nodes, ws, pattern@, k as int),
            decreases n - k,
        {
            assert(self.model().nodes[k as int] == node_view(self.nodes@[k as int]));
            if self.nodes[k].kind == ScopeNodeKind::Package && member_matches(pattern, self.nodes[k].path.as_str()) {
                let id = self.nodes[k].id;
                self.add_edge(ws, id, ScopeEdgeKind::DeclaresMember);
            }
            k = k + 1;
        }
    }

    /// Adds the declared-member edges of the manifests.
    pub fn add_member_edges(&mut self, manifests: &[ManifestDeclaration], repository: u32)
        requires
            old(self).well_formed(),
        ensures
            final(self).well_formed(),
            final(self).model() == declared_members_model(old(self).model(), repository, manifests@, manifests@.len() as int),
    {
        let ghost start = self.model();
        let mut i: usize = 0;
        while i < manifests.len()
            invariant
                i <= manifests@.len(),
                self.well_formed(),
                self.model() == declared_members_model(start, repository, manifests@, i as int),
            decreases manifests.len() - i,
        {
            let d = &manifests[i];
            let dir = parent_path(d.path.as_str());
            let ws = self.workspace_id(dir.as_str(), repository);
            let ghost base = self.model();
            let mut k: usize = 0;
            while k < d.members.len()
                invariant
                    k <= d.members@.len(),
                    self.well_formed(),
                    self.model() == member_edges(base, ws, dir@, d.members@, k as int),
                    self.model().nodes == base.nodes,
                decreases d.members.len() - k,
            {
                let pattern = join_relative(dir.as_str(), d.members[k].as_str());
                self.add_package_edges(ws, pattern.as_str());
                k = k + 1;
            }
            i = i + 1;
        }
    }

    /// Adds a submodule node, bounded off from the repository, for each
    /// `path =` line of a `.gitmodules` text.
    pub fn add_submodules(&mut self, gitmodules: &str, repository: u32)
        requires
            old(self).well_formed(),
        ensures
            final(self).well_formed(),
            final(self).model() == submodules_model(old(self).model(), repository, lines_of(gitmodules@), lines_of(gitmodules@).len() as int),
    {
        let t = chars_of(gitmodules);
        let lines = split_lines(t.as_slice());
        let ghost lv = views(lines@);
        let ghost start = self.model();
        let key = chars_of("path =");
        let mut i: usize = 0;
        while i < lines.len()
            invariant
                i <= lines@.len(),
                lv == views(lines@),
                lv == lines_of(gitmodules@),
                key@ == "path ="@,
                self.well_formed(),
                self.model() == submodules_model(start, repository, lv, i as int),
            decreases lines.len() - i,
        {
            assert(lv[i as int] == lines@[i as int]@);
            let line = trimmed(lines[i].as_slice());
            if crate::text::starts_with(line.as_slice(), key.as_slice()) {
                let rest = crate::text::slice_of(line.as_slice(), key.len(), line.len());
                let inner = trimmed(rest.as_slice());
                let text = crate::text::string_of(inner.as_slice());
                let path = normalize_member(text.as_str());
                match self.add_node(ScopeNodeKind::Submodule, path, None) {
                    Some(node) => self.add_edge(repository, node, ScopeEdgeKind::SubmoduleBoundary),
                    None => {},
                }
            }
            i = i + 1;
        }
    }
}

proof fn graph_rank_lemma(a: u8, b: u8)
    requires
        a <= 6,
        b <= 6,
        edge_kind_of(a) == edge_kind_of(b),
    ensures
        a == b,
{
}

/// An empty model under a node budget.
pub open spec fn empty_model(limit: u32) -> GraphModel {
    GraphModel { nodes: Seq::empty(), edges: Set::empty(), truncated: false, limit }
}

/// The scope graph's model: the repository node, the manifests' workspaces
/// and packages, the files' packages and content directories, the declared
/// member edges, then the submodules.
pub open spec fn scope_graph_model(files: Seq<FileRecord>, manifests: Seq<ManifestDeclaration>, gitmodules: Option<Seq<char>>, limit: u32) -> GraphModel {
    let (m0, _) = add_node_model(empty_model(limit), ScopeNodeKind::Repository, Seq::empty(), None);
    let m1 = manifests_model(m0, 1, manifests, manifests.len() as int);
    let m2 = files_model(m1, 1, files, files.len() as int);
    let m3 = declared_members_model(m2, 1, manifests, manifests.len() as int);
    match gitmodules {
        Some(t) => submodules_model(m3, 1, lines_of(t), lines_of(t).len() as int),
        None => m3,
    }
}

/// The repository scope graph under a node budget: no nodes and a partial
/// node coverage for a budget of 0; else the nodes in id order, the edges in
/// order, and whether the budget cut the graph short, as
/// `scope_graph_model` gives them.
pub fn build_scope_graph(files: &[FileRecord], manifests: &[ManifestDeclaration], gitmodules: Option<&str>, max_nodes: u32)
    -> (r: (Vec<ScopeNode>, Vec<ScopeEdge>, CoverageStatus))
    ensures
        max_nodes == 0 ==> r.0@.len() == 0 && r.1@.len() == 0
            && r.2 == CoverageStatus::Partial(CoverageIncompleteReason::LimitExceeded),
        max_nodes > 0 ==> ({
            let m = scope_graph_model(files@, manifests@, match gitmodules { Some(t) => Some(t@), None => None::<Seq<char>> }, max_nodes);
            &&& r.0@.map_values(|n: ScopeNode| node_view(n)) == m.nodes
            &&& forall|i: int| 0 <= i < r.0@.len() ==> (#[trigger] r.0@[i]).id == i + 1
            &&& forall|e: (u32, u32, u8)| e.2 <= 6 ==> (m.edges.contains(e) <==>
                    exists|i: int| 0 <= i < r.1@.len() && (#[trigger] r.1@[i]) == (ScopeEdge { from: e.0, to: e.1, kind: edge_kind_of(e.2) }))
            &&& forall|e: (u32, u32, u8)| #[trigger] m.edges.contains(e) ==> e.2 <= 6
            &&& r.2 == (if m.truncated { CoverageStatus::Partial(CoverageIncompleteReason::LimitExceeded) } else { CoverageStatus::Complete })
        }),
{
    if max_nodes == 0 {
        return (Vec::new(), Vec::new(), CoverageStatus::Partial(CoverageIncompleteReason::LimitExceeded));
    }
    let mut graph = ScopeGraphBuilder::new(max_nodes);
    proof {
        assert(graph.model().nodes =~= Seq::<(ScopeNodeKind, Seq<char>, Option<Seq<char>>)>::empty());
        assert(graph.model().edges =~= Set::<(u32, u32, u8)>::empty());
        assert(graph.model() == empty_model(max_nodes));
    }
    let root_path = String::new();
    assert(root_path@ == Seq::<char>::empty());
    let repository = match graph.add_node(ScopeNodeKind::Repository, root_path, None) {
        Some(id) => id,
        None => 1,
    };
    proof {
        assert(graph.model().nodes.len() == 1);
        assert(repository == 1);
    }
    graph.add_manifest_nodes(manifests, repository);
    graph.add_file_nodes(files, repository);
    graph.add_member_edges(manifests, repository);
    match gitmodules {
        Some(text) => graph.add_submodules(text, repository),
        None => {},
    }
    let ghost m = graph.model();
    let ghost es = graph.edge_seq();
    let r = graph.finish();
    proof {
        assert forall|e: (u32, u32, u8)| #[trigger] m.edges.contains(e) implies e.2 <= 6 by {
            assert(es.contains(e));
        }
        assert forall|e: (u32, u32, u8)| e.2 <= 6 implies (m.edges.contains(e) <==>
            exists|i: int| 0 <= i < r.1@.len() && (#[trigger] r.1@[i]) == (ScopeEdge { from: e.0, to: e.1, kind: edge_kind_of(e.2) })) by {
            if m.edges.contains(e) {
                assert(es.contains(e));
                let i = choose|i: int| 0 <= i < es.len() && es[i] == e;
                assert(r.1@[i] == (ScopeEdge { from: e.0, to: e.1, kind: edge_kind_of(e.2) }));
            }
            if exists|i: int| 0 <= i < r.1@.len() && (#[trigger] r.1@[i]) == (ScopeEdge { from: e.0, to: e.1, kind: edge_kind_of(e.2) }) {
                let i = choose|i: int| 0 <= i < r.1@.len() && (#[trigger] r.1@[i]) == (ScopeEdge { from: e.0, to: e.1, kind: edge_kind_of(e.2) });
                assert(es[i].0 == e.0 && es[i].1 == e.1 && edge_kind_of(es[i].2) == edge_kind_of(e.2));
                graph_rank_lemma(es[i].2, e.2);
                assert(es[i] == e);
                assert(es.contains(e));
            }
        }
    }
    r
}

} // verus!

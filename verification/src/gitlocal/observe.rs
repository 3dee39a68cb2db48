//! Reading a repository's references and commit headers within a budget.
//! The object database is read outside; each result is handed to the
//! functions here, which decide what is recorded and how complete the
//! observation is.

use vstd::prelude::*;
use crate::gitlocal::discovery::GitDiagnosticKind;
use crate::gitlocal::refs::{offset_minutes, offset_minutes_spec, reference_kind, reference_kind_of, GitReferenceKind};
use crate::text::{chars_of, lemma_lex_total, lemma_lex_transitive, lex_less, lex_lt};

verus! {

#[derive(Debug, Clone, Copy, PartialEq, Eq, Structural)]
pub enum CoverageIncompleteReason {
    ParseFailed,
    UnsupportedSyntax,
    LimitExceeded,
    Unavailable,
}

/// How much of a kind of Git data was read.
#[derive(Debug, Clone, Copy, PartialEq, Eq, Structural)]
pub enum CoverageStatus {
    Complete,
    Partial(CoverageIncompleteReason),
}

#[derive(Debug, Clone, Copy, PartialEq, Eq, Structural)]
pub enum GitObservationState {
    /// Nothing was read: there is no Git directory.
    NotObserved,
    Unknown,
    Available,
}

#[derive(Debug, Clone, PartialEq, Eq)]
pub struct GitDiagnostic {
    pub kind: GitDiagnosticKind,
    pub path: String,
}

/// How many references, tags and commit headers may be read.
#[derive(Debug, Clone, Copy, PartialEq, Eq, Structural)]
pub struct GitReadBudget {
    pub max_refs: u32,
    pub max_tags: u32,
    pub max_commit_headers: u32,
}

#[derive(Debug, Clone, PartialEq, Eq)]
pub struct GitReferenceObservation {
    pub name: String,
    pub target: String,
    pub kind: GitReferenceKind,
}

#[derive(Debug, Clone, Copy, PartialEq, Eq, Structural)]
pub struct GitTimestamp {
    pub seconds_since_epoch: i64,
    pub offset_minutes: i16,
}

#[derive(Debug, Clone, PartialEq, Eq)]
pub struct GitCommitHeader {
    pub object_id: String,
    pub committed_at: GitTimestamp,
}

/// What was read of a repository's history.
#[derive(Debug, Clone, PartialEq, Eq)]
pub struct GitTemporalObservation {
    pub state: GitObservationState,
    pub refs_coverage: CoverageStatus,
    pub tags_coverage: CoverageStatus,
    pub commits_coverage: CoverageStatus,
    pub shallow: bool,
    pub partial: bool,
    pub head_name: Option<String>,
    pub head_target: Option<String>,
    pub references: Vec<GitReferenceObservation>,
    pub commits: Vec<GitCommitHeader>,
    pub diagnostics: Vec<GitDiagnostic>,
}

pub open spec fn all_partial(o: GitTemporalObservation, reason: CoverageIncompleteReason) -> bool {
    &&& o.refs_coverage == CoverageStatus::Partial(reason)
    &&& o.tags_coverage == CoverageStatus::Partial(reason)
    &&& o.commits_coverage == CoverageStatus::Partial(reason)
}

fn diagnostic(kind: GitDiagnosticKind, path: &str) -> (d: GitDiagnostic)
    ensures
        d.kind == kind,
        d.path@ == path@,
{
    GitDiagnostic { kind, path: path.to_owned() }
}

/// The file-system facts that decide whether a repository is read.
#[derive(Debug, Clone, PartialEq, Eq)]
pub struct RepositoryFacts {
    /// What discovery reported when the `.git` marker could not be used.
    pub discovery_diagnostic: Option<GitDiagnostic>,
    pub has_git_dir: bool,
    pub shallow: bool,
    /// A promisor pack marks a partial clone.
    pub partial: bool,
    pub alternates: bool,
    pub packed_refs_too_large: bool,
}

/// The observation before the object database is opened, and whether to
/// open it: a discovery diagnostic leaves everything unknown; without a Git
/// directory nothing is observed; alternate object directories and an
/// oversized `packed-refs` stop the read; a shallow or partial clone is read
/// without its commit history.
pub fn begin_observation(facts: &RepositoryFacts) -> (r: (GitTemporalObservation, bool))
    ensures
        facts.discovery_diagnostic is Some ==> !r.1 && r.0.state == GitObservationState::Unknown
            && all_partial(r.0, CoverageIncompleteReason::ParseFailed)
            && r.0.diagnostics@.len() == 1 && r.0.diagnostics@[0] == facts.discovery_diagnostic->0,
        facts.discovery_diagnostic is None && !facts.has_git_dir ==> !r.1 && r.0.state == GitObservationState::NotObserved
            && r.0.diagnostics@.len() == 0,
        facts.discovery_diagnostic is None && facts.has_git_dir ==> {
            &&& r.0.state == GitObservationState::Unknown
            &&& r.0.shallow == facts.shallow
            &&& r.0.partial == facts.partial
            &&& r.0.references@.len() == 0 && r.0.commits@.len() == 0
            &&& if facts.alternates {
                &&& !r.1
                &&& all_partial(r.0, CoverageIncompleteReason::UnsupportedSyntax)
                &&& r.0.diagnostics@.len() == 1 && r.0.diagnostics@[0].kind == GitDiagnosticKind::AlternateObjectDirectoryDisabled
                &&& r.0.diagnostics@[0].path@ == "objects/info/alternates"@
            } else if facts.packed_refs_too_large {
                &&& !r.1
                &&& r.0.refs_coverage == CoverageStatus::Partial(CoverageIncompleteReason::LimitExceeded)
                &&& r.0.tags_coverage == CoverageStatus::Partial(CoverageIncompleteReason::LimitExceeded)
                &&& r.0.commits_coverage == CoverageStatus::Partial(CoverageIncompleteReason::Unavailable)
                &&& r.0.diagnostics@.len() == 1 && r.0.diagnostics@[0].kind == GitDiagnosticKind::PackedReferencesTooLarge
                &&& r.0.diagnostics@[0].path@ == "packed-refs"@
            } else {
                &&& r.1
                &&& r.0.refs_coverage == CoverageStatus::Complete
                &&& r.0.tags_coverage == CoverageStatus::Complete
                &&& r.0.commits_coverage == if facts.shallow || facts.partial {
                        CoverageStatus::Partial(CoverageIncompleteReason::Unavailable)
                    } else {
                        CoverageStatus::Complete
                    }
                &&& r.0.diagnostics@.len() == (if facts.shallow { 1int } else { 0 }) + (if facts.partial { 1int } else { 0 })
                &&& facts.shallow ==> r.0.diagnostics@[0].kind == GitDiagnosticKind::ShallowRepository
                &&& facts.partial ==> r.0.diagnostics@.last().kind == GitDiagnosticKind::PartialRepository
            }
        },
{
    let mut o = GitTemporalObservation {
        state: GitObservationState::Unknown,
        refs_coverage: CoverageStatus::Complete,
        tags_coverage: CoverageStatus::Complete,
        commits_coverage: CoverageStatus::Complete,
        shallow: false,
        partial: false,
        head_name: None,
        head_target: None,
        references: Vec::new(),
        commits: Vec::new(),
        diagnostics: Vec::new(),
    };
    match &facts.discovery_diagnostic {
        Some(d) => {
            let partial = CoverageStatus::Partial(CoverageIncompleteReason::ParseFailed);
            o.refs_coverage = partial;
            o.tags_coverage = partial;
            o.commits_coverage = partial;
            o.diagnostics.push(GitDiagnostic { kind: d.kind, path: d.path.clone() });
            assert(o.diagnostics@[0] == facts.discovery_diagnostic->0);
            return (o, false);
        },
        None => {},
    }
    if !facts.has_git_dir {
        o.state = GitObservationState::NotObserved;
        let unavailable = CoverageStatus::Partial(CoverageIncompleteReason::Unavailable);
        o.refs_coverage = unavailable;
        o.tags_coverage = unavailable;
        o.commits_coverage = unavailable;
        return (o, false);
    }
    o.shallow = facts.shallow;
    o.partial = facts.partial;
    if facts.alternates {
        let unsupported = CoverageStatus::Partial(CoverageIncompleteReason::UnsupportedSyntax);
        o.refs_coverage = unsupported;
        o.tags_coverage = unsupported;
        o.commits_coverage = unsupported;
        o.diagnostics.push(diagnostic(GitDiagnosticKind::AlternateObjectDirectoryDisabled, "objects/info/alternates"));
        return (o, false);
    }
    if facts.packed_refs_too_large {
        o.refs_coverage = CoverageStatus::Partial(CoverageIncompleteReason::LimitExceeded);
        o.tags_coverage = CoverageStatus::Partial(CoverageIncompleteReason::LimitExceeded);
        o.commits_coverage = CoverageStatus::Partial(CoverageIncompleteReason::Unavailable);
        o.diagnostics.push(diagnostic(GitDiagnosticKind::PackedReferencesTooLarge, "packed-refs"));
        return (o, false);
    }
    if facts.shallow {
        o.diagnostics.push(diagnostic(GitDiagnosticKind::ShallowRepository, "shallow"));
        o.commits_coverage = CoverageStatus::Partial(CoverageIncompleteReason::Unavailable);
    }
    if facts.partial {
        o.diagnostics.push(diagnostic(GitDiagnosticKind::PartialRepository, "objects/pack"));
        o.commits_coverage = CoverageStatus::Partial(CoverageIncompleteReason::Unavailable);
    }
    (o, true)
}

impl GitTemporalObservation {
    /// The object database could not be opened.
    pub fn open_failed(&mut self)
        ensures
            all_partial(*final(self), CoverageIncompleteReason::ParseFailed),
            final(self).diagnostics@.len() == old(self).diagnostics@.len() + 1,
            final(self).diagnostics@.last().kind == GitDiagnosticKind::Io,
            final(self).diagnostics@.last().path@ == "git-directory"@,
            final(self).state == old(self).state,
            final(self).references == old(self).references,
            final(self).commits == old(self).commits,
    {
        let partial = CoverageStatus::Partial(CoverageIncompleteReason::ParseFailed);
        self.refs_coverage = partial;
        self.tags_coverage = partial;
        self.commits_coverage = partial;
        self.diagnostics.push(diagnostic(GitDiagnosticKind::Io, "git-directory"));
    }

    /// Records `HEAD`: its symbolic name and target when it could be read,
    /// else a malformed-head diagnostic.
    pub fn record_head(&mut self, head: Option<(Option<String>, Option<String>)>)
        ensures
            match head {
                Some((name, target)) => final(self).head_name == name && final(self).head_target == target
                    && final(self).diagnostics == old(self).diagnostics,
                None => final(self).head_name == old(self).head_name && final(self).head_target == old(self).head_target
                    && final(self).diagnostics@.len() == old(self).diagnostics@.len() + 1
                    && final(self).diagnostics@.last().kind == GitDiagnosticKind::MalformedHead
                    && final(self).diagnostics@.last().path@ == "HEAD"@,
            },
            final(self).refs_coverage == old(self).refs_coverage,
            final(self).tags_coverage == old(self).tags_coverage,
            final(self).commits_coverage == old(self).commits_coverage,
            final(self).references == old(self).references,
            final(self).commits == old(self).commits,
    {
        match head {
            Some((name, target)) => {
                self.head_name = name;
                self.head_target = target;
            },
            None => self.diagnostics.push(diagnostic(GitDiagnosticKind::MalformedHead, "HEAD")),
        }
    }

    /// The reference store could not be opened.
    pub fn references_unavailable(&mut self)
        ensures
            final(self).refs_coverage == CoverageStatus::Partial(CoverageIncompleteReason::ParseFailed),
            final(self).tags_coverage == CoverageStatus::Partial(CoverageIncompleteReason::ParseFailed),
            final(self).commits_coverage == old(self).commits_coverage,
            final(self).diagnostics@.len() == old(self).diagnostics@.len() + 1,
            final(self).diagnostics@.last().kind == GitDiagnosticKind::MalformedReference,
            final(self).diagnostics@.last().path@ == "packed-refs"@,
            final(self).references == old(self).references,
    {
        let partial = CoverageStatus::Partial(CoverageIncompleteReason::ParseFailed);
        self.refs_coverage = partial;
        self.tags_coverage = partial;
        self.diagnostics.push(diagnostic(GitDiagnosticKind::MalformedReference, "packed-refs"));
    }

    /// The references could not be listed.
    pub fn references_unlisted(&mut self)
        ensures
            final(self).refs_coverage == CoverageStatus::Partial(CoverageIncompleteReason::ParseFailed),
            final(self).tags_coverage == old(self).tags_coverage,
            final(self).commits_coverage == old(self).commits_coverage,
            final(self).diagnostics == old(self).diagnostics,
            final(self).references == old(self).references,
    {
        self.refs_coverage = CoverageStatus::Partial(CoverageIncompleteReason::ParseFailed);
    }
}

/// References and tags read so far.
#[derive(Debug, Clone, Copy, PartialEq, Eq, Structural)]
pub struct ReferenceCounter {
    pub refs_seen: u32,
    pub tags_seen: u32,
}

/// One listed reference: its name and target, or an entry that failed to
/// parse.
#[derive(Debug, Clone, PartialEq, Eq)]
pub enum ReferenceItem {
    Parsed { name: String, target: String },
    Malformed,
}

impl GitTemporalObservation {
    /// Starts reading references: with no reference budget nothing is read
    /// and both coverages are limited.
    pub fn start_references(&mut self, budget: GitReadBudget) -> (r: Option<ReferenceCounter>)
        ensures
            budget.max_refs == 0 <==> r is None,
            budget.max_refs == 0 ==> final(self).refs_coverage == CoverageStatus::Partial(CoverageIncompleteReason::LimitExceeded)
                && final(self).tags_coverage == CoverageStatus::Partial(CoverageIncompleteReason::LimitExceeded),
            budget.max_refs != 0 ==> *final(self) == *old(self),
            r matches Some(c) ==> c.refs_seen == 0 && c.tags_seen == 0,
            final(self).references == old(self).references,
            final(self).diagnostics == old(self).diagnostics,
            final(self).commits_coverage == old(self).commits_coverage,
    {
        if budget.max_refs == 0 {
            self.refs_coverage = CoverageStatus::Partial(CoverageIncompleteReason::LimitExceeded);
            self.tags_coverage = CoverageStatus::Partial(CoverageIncompleteReason::LimitExceeded);
            return None;
        }
        Some(ReferenceCounter { refs_seen: 0, tags_seen: 0 })
    }

    /// Takes one of the first `max_refs` listed references: a malformed one
    /// marks references as partly parsed; a tag beyond the tag budget is
    /// skipped and limits tags; any other is recorded with its kind.
    pub fn observe_reference(&mut self, counter: &mut ReferenceCounter, budget: GitReadBudget, item: ReferenceItem)
        requires
            old(counter).refs_seen < budget.max_refs,
        ensures
            match item {
                ReferenceItem::Malformed => {
                    &&& *final(counter) == *old(counter)
                    &&& final(self).refs_coverage == CoverageStatus::Partial(CoverageIncompleteReason::ParseFailed)
                    &&& final(self).tags_coverage == old(self).tags_coverage
                    &&& final(self).references == old(self).references
                    &&& final(self).diagnostics@.len() == old(self).diagnostics@.len() + 1
                    &&& final(self).diagnostics@.last().kind == GitDiagnosticKind::MalformedReference
                    &&& final(self).diagnostics@.last().path@ == "refs"@
                },
                ReferenceItem::Parsed { name, target } => {
                    let kind = reference_kind_of(name@);
                    &&& final(counter).refs_seen == old(counter).refs_seen + 1
                    &&& final(self).refs_coverage == old(self).refs_coverage
                    &&& final(self).diagnostics == old(self).diagnostics
                    &&& if kind == GitReferenceKind::Tag && old(counter).tags_seen >= budget.max_tags {
                        &&& final(counter).tags_seen == old(counter).tags_seen
                        &&& final(self).tags_coverage == CoverageStatus::Partial(CoverageIncompleteReason::LimitExceeded)
                        &&& final(self).references == old(self).references
                    } else {
                        &&& final(counter).tags_seen == old(counter).tags_seen + if kind == GitReferenceKind::Tag { 1int } else { 0 }
                        &&& final(self).tags_coverage == old(self).tags_coverage
                        &&& final(self).references@ == old(self).references@.push(GitReferenceObservation { name, target, kind })
                    }
                },
            },
            final(counter).refs_seen <= budget.max_refs,
            final(self).commits_coverage == old(self).commits_coverage,
            final(self).commits == old(self).commits,
    {
        match item {
            ReferenceItem::Malformed => {
                self.refs_coverage = CoverageStatus::Partial(CoverageIncompleteReason::ParseFailed);
                self.diagnostics.push(diagnostic(GitDiagnosticKind::MalformedReference, "refs"));
            },
            ReferenceItem::Parsed { name, target } => {
                let kind = reference_kind(name.as_str());
                counter.refs_seen = counter.refs_seen + 1;
                if kind == GitReferenceKind::Tag {
                    if counter.tags_seen >= budget.max_tags {
                        self.tags_coverage = CoverageStatus::Partial(CoverageIncompleteReason::LimitExceeded);
                        return;
                    }
                    counter.tags_seen = counter.tags_seen + 1;
                }
                self.references.push(GitReferenceObservation { name, target, kind });
            },
        }
    }

    /// Ends reading references: a spent reference budget limits references,
    /// a spent tag budget tags; the references are sorted by name.
    pub fn finish_references(&mut self, counter: ReferenceCounter, budget: GitReadBudget)
        ensures
            final(self).refs_coverage == if counter.refs_seen == budget.max_refs {
                CoverageStatus::Partial(CoverageIncompleteReason::LimitExceeded)
            } else {
                old(self).refs_coverage
            },
            final(self).tags_coverage == if counter.tags_seen == budget.max_tags && budget.max_tags > 0 {
                CoverageStatus::Partial(CoverageIncompleteReason::LimitExceeded)
            } else {
                old(self).tags_coverage
            },
            final(self).references@.to_multiset() == old(self).references@.to_multiset(),
            sorted_by_name(final(self).references@),
            final(self).diagnostics == old(self).diagnostics,
            final(self).commits == old(self).commits,
            final(self).commits_coverage == old(self).commits_coverage,
    {
        if counter.refs_seen == budget.max_refs {
            self.refs_coverage = CoverageStatus::Partial(CoverageIncompleteReason::LimitExceeded);
        }
        if counter.tags_seen == budget.max_tags && budget.max_tags > 0 {
            self.tags_coverage = CoverageStatus::Partial(CoverageIncompleteReason::LimitExceeded);
        }
        let mut references: Vec<GitReferenceObservation> = Vec::new();
        std::mem::swap(&mut references, &mut self.references);
        self.references = sort_references_by_name(references);
    }
}

/// Names in non-decreasing order.
pub open spec fn sorted_by_name(s: Seq<GitReferenceObservation>) -> bool {
    forall|i: int, j: int| 0 <= i < j < s.len() ==> !lex_lt(#[trigger] s[j].name@, #[trigger] s[i].name@)
}

fn name_less(a: &GitReferenceObservation, b: &GitReferenceObservation) -> (r: bool)
    ensures
        r == lex_lt(a.name@, b.name@),
{
    let x = chars_of(a.name.as_str());
    let y = chars_of(b.name.as_str());
    lex_less(x.as_slice(), y.as_slice())
}

/// A stable sort of references by name.
pub fn sort_references_by_name(references: Vec<GitReferenceObservation>) -> (out: Vec<GitReferenceObservation>)
    ensures
        out@.to_multiset() == references@.to_multiset(),
        sorted_by_name(out@),
{
    broadcast use vstd::seq_lib::to_multiset_insert, vstd::seq_lib::to_multiset_remove;
    let mut input = references;
    let ghost all = input@;
    let mut out: Vec<GitReferenceObservation> = Vec::new();
    assert(out@.to_multiset() =~= vstd::multiset::Multiset::empty()) by {
        broadcast use vstd::seq_lib::group_to_multiset_ensures, vstd::multiset::lemma_multiset_empty_len;
    };
    while input.len() > 0
        invariant
            out@.to_multiset().add(input@.to_multiset()) == all.to_multiset(),
            sorted_by_name(out@),
        decreases input.len(),
    {
        let ghost in_before = input@;
        let ghost out_before = out@;
        let x = input.remove(0);
        let mut p: usize = 0;
        while p < out.len() && !name_less(&x, &out[p])
            invariant
                p <= out.len(),
                out@ == out_before,
                forall|k: int| 0 <= k < p ==> !lex_lt(x.name@, #[trigger] out@[k].name@),
            decreases out.len() - p,
        {
            p = p + 1;
        }
        let ghost at = p as int;
        out.insert(p, x);
        proof {
            let after = out@;
            assert(after =~= out_before.insert(at, x));
            assert(in_before.remove(0) =~= input@);
            assert(in_before[0] == x);
            assert forall|i: int, j: int| 0 <= i < j < after.len() implies !lex_lt(#[trigger] after[j].name@, #[trigger] after[i].name@) by {
                if j == at {
                    assert(after[i] == out_before[i]);
                    lemma_lex_total(x.name@, out_before[i].name@);
                } else if i == at {
                    assert(after[j] == out_before[j - 1]);
                    assert(lex_lt(x.name@, out_before[at].name@));
                    lemma_lex_total(x.name@, out_before[at].name@);
                    if j - 1 > at {
                        assert(!lex_lt(out_before[j - 1].name@, out_before[at].name@));
                        if lex_lt(out_before[j - 1].name@, x.name@) {
                            lemma_lex_transitive(out_before[j - 1].name@, x.name@, out_before[at].name@);
                        }
                    }
                } else if i < at && j > at {
                    assert(after[i] == out_before[i]);
                    assert(after[j] == out_before[j - 1]);
                } else if i > at {
                    assert(after[i] == out_before[i - 1]);
                    assert(after[j] == out_before[j - 1]);
                } else {
                    assert(after[i] == out_before[i]);
                    assert(after[j] == out_before[j]);
                }
            }
            vstd::seq_lib::to_multiset_insert(out_before, at, x);
            vstd::seq_lib::to_multiset_remove(in_before, 0);
            assert(out@.to_multiset() == out_before.to_multiset().insert(x));
            assert(input@.to_multiset() == in_before.to_multiset().remove(x));
            assert(in_before.to_multiset().count(x) > 0) by {
                broadcast use vstd::seq_lib::to_multiset_contains;
                assert(in_before.contains(x));
            }
            assert(out@.to_multiset().add(input@.to_multiset()) =~= out_before.to_multiset().add(in_before.to_multiset())) by {
                broadcast use vstd::multiset::group_multiset_axioms;
            }
        }
    }
    assert(input@.to_multiset() =~= vstd::multiset::Multiset::empty()) by {
        broadcast use vstd::seq_lib::group_to_multiset_ensures, vstd::multiset::lemma_multiset_empty_len;
    };
    assert(out@.to_multiset().add(input@.to_multiset()) =~= out@.to_multiset()) by {
        broadcast use vstd::multiset::group_multiset_axioms;
    };
    out
}

/// One header of the commit walk: a walk failure, a commit whose time could
/// not be decoded, or the commit's id and time.
#[derive(Debug, Clone, PartialEq, Eq)]
pub enum CommitItem {
    WalkFailed,
    Undecodable,
    Header { object_id: String, seconds: i64, offset_seconds: i32 },
}

impl GitTemporalObservation {
    /// Whether commit history is read: not for a shallow or partial clone.
    pub fn reads_commits(&self) -> (r: bool)
        ensures
            r == !(self.shallow || self.partial),
    {
        !(self.shallow || self.partial)
    }

    /// The commit walk could not be set up.
    pub fn commit_walk_failed(&mut self)
        ensures
            final(self).commits_coverage == CoverageStatus::Partial(CoverageIncompleteReason::ParseFailed),
            final(self).commits == old(self).commits,
            final(self).diagnostics == old(self).diagnostics,
    {
        self.commits_coverage = CoverageStatus::Partial(CoverageIncompleteReason::ParseFailed);
    }

    /// Whether any commit header may be read; with no budget the commits
    /// are limited.
    pub fn start_commits(&mut self, budget: GitReadBudget) -> (r: bool)
        ensures
            r == (budget.max_commit_headers > 0),
            !r ==> final(self).commits_coverage == CoverageStatus::Partial(CoverageIncompleteReason::LimitExceeded),
            r ==> *final(self) == *old(self),
            final(self).commits == old(self).commits,
            final(self).diagnostics == old(self).diagnostics,
    {
        if budget.max_commit_headers == 0 {
            self.commits_coverage = CoverageStatus::Partial(CoverageIncompleteReason::LimitExceeded);
            return false;
        }
        true
    }

    /// Takes one of the first `max_commit_headers` walk results; `false`
    /// when the walk is to stop. A walk failure stops it with a decode
    /// diagnostic; an undecodable commit is skipped; a header is recorded
    /// with its offset in minutes.
    pub fn observe_commit(&mut self, item: CommitItem) -> (more: bool)
        ensures
            match item {
                CommitItem::WalkFailed => {
                    &&& !more
                    &&& final(self).commits_coverage == CoverageStatus::Partial(CoverageIncompleteReason::ParseFailed)
                    &&& final(self).commits == old(self).commits
                    &&& final(self).diagnostics@.len() == old(self).diagnostics@.len() + 1
                    &&& final(self).diagnostics@.last().kind == GitDiagnosticKind::ObjectDecodeFailed
                    &&& final(self).diagnostics@.last().path@ == "objects"@
                },
                CommitItem::Undecodable => {
                    &&& more
                    &&& final(self).commits_coverage == CoverageStatus::Partial(CoverageIncompleteReason::ParseFailed)
                    &&& final(self).commits == old(self).commits
                    &&& final(self).diagnostics == old(self).diagnostics
                },
                CommitItem::Header { object_id, seconds, offset_seconds } => {
                    &&& more
                    &&& final(self).commits_coverage == old(self).commits_coverage
                    &&& final(self).commits@ == old(self).commits@.push(GitCommitHeader {
                        object_id,
                        committed_at: GitTimestamp { seconds_since_epoch: seconds, offset_minutes: offset_minutes_spec(offset_seconds) },
                    })
                    &&& final(self).diagnostics == old(self).diagnostics
                },
            },
            final(self).references == old(self).references,
            final(self).refs_coverage == old(self).refs_coverage,
            final(self).tags_coverage == old(self).tags_coverage,
    {
        match item {
            CommitItem::WalkFailed => {
                self.commits_coverage = CoverageStatus::Partial(CoverageIncompleteReason::ParseFailed);
                self.diagnostics.push(diagnostic(GitDiagnosticKind::ObjectDecodeFailed, "objects"));
                false
            },
            CommitItem::Undecodable => {
                self.commits_coverage = CoverageStatus::Partial(CoverageIncompleteReason::ParseFailed);
                true
            },
            CommitItem::Header { object_id, seconds, offset_seconds } => {
                let committed_at = GitTimestamp { seconds_since_epoch: seconds, offset_minutes: offset_minutes(offset_seconds) };
                self.commits.push(GitCommitHeader { object_id, committed_at });
                true
            },
        }
    }

    /// Ends the walk: a spent header budget limits the commits.
    pub fn finish_commits(&mut self, budget: GitReadBudget)
        ensures
            final(self).commits_coverage == if old(self).commits@.len() == budget.max_commit_headers as nat {
                CoverageStatus::Partial(CoverageIncompleteReason::LimitExceeded)
            } else {
                old(self).commits_coverage
            },
            final(self).commits == old(self).commits,
            final(self).diagnostics == old(self).diagnostics,
            final(self).references == old(self).references,
    {
        if self.commits.len() as u64 == budget.max_commit_headers as u64 {
            self.commits_coverage = CoverageStatus::Partial(CoverageIncompleteReason::LimitExceeded);
        }
    }

    /// The read succeeded.
    pub fn mark_available(&mut self)
        ensures
            final(self).state == GitObservationState::Available,
            final(self).references == old(self).references,
            final(self).commits == old(self).commits,
            final(self).diagnostics == old(self).diagnostics,
            final(self).refs_coverage == old(self).refs_coverage,
            final(self).tags_coverage == old(self).tags_coverage,
            final(self).commits_coverage == old(self).commits_coverage,
    {
        self.state = GitObservationState::Available;
    }
}

} // verus!

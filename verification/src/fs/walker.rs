//! Walk configuration and bookkeeping: the ignore policy, scan limits, and
//! the decisions that the repository walk takes for each directory entry.

use vstd::prelude::*;
use std::path::{Path, PathBuf};
use std::io;
use crate::fs::records::{FileKind, FileRecord, IgnoredPathReason, IgnoredShallowRecord};
use crate::text::{chars_of, equals_str, lex_less, lex_lt, lemma_lex_irreflexive, lemma_lex_total, lemma_lex_transitive};

verus! {

#[verifier::external_type_specification]
#[verifier::external_body]
pub struct ExPathBuf(PathBuf);

#[verifier::external_type_specification]
#[verifier::external_body]
pub struct ExPath(Path);

/// `PathBuf::clone` gives an equal path.
pub assume_specification[ <PathBuf as Clone>::clone ](p: &PathBuf) -> (r: PathBuf)
    ensures
        r == *p,
;

/// The path that `PathBuf::as_path` borrows from a path buffer.
pub uninterp spec fn borrowed_path(buf: &PathBuf) -> &Path;

/// `PathBuf::as_path`: a borrow of the buffer's own path, which depends on
/// the buffer alone (named `borrowed_path`).
#[verifier::external_body]
fn path_buf_as_path(p: &PathBuf) -> (r: &Path)
    ensures
        r == borrowed_path(p),
{
    p.as_path()
}

/// The root directory of a repository, as the walk resolved it.
#[derive(Debug, Clone, PartialEq, Eq)]
pub struct RepositoryRoot(PathBuf);

impl RepositoryRoot {
    pub closed spec fn path(&self) -> PathBuf {
        self.0
    }

    pub fn from_path_buf(path: PathBuf) -> (r: Self)
        ensures
            r.path() == path,
    {
        RepositoryRoot(path)
    }

    /// The root's path, borrowed.
    pub fn as_path(&self) -> (r: &Path)
        ensures
            r == borrowed_path(&self.path()),
    {
        path_buf_as_path(&self.0)
    }

    pub fn into_path_buf(self) -> (r: PathBuf)
        ensures
            r == self.path(),
    {
        self.0
    }
}


#[verifier::external_type_specification]
#[verifier::external_body]
pub struct ExIoError(io::Error);

/// Names that every walk skips.
pub const DEFAULT_IGNORED_NAMES: [&'static str; 10] = [
    ".git",
    ".hg",
    ".svn",
    "target",
    "node_modules",
    ".venv",
    "dist",
    "build",
    ".idea",
    ".vscode",
];

/// `name` is one of `DEFAULT_IGNORED_NAMES`.
pub open spec fn is_default_ignored(name: Seq<char>) -> bool {
    ||| name == ".git"@
    ||| name == ".hg"@
    ||| name == ".svn"@
    ||| name == "target"@
    ||| name == "node_modules"@
    ||| name == ".venv"@
    ||| name == "dist"@
    ||| name == "build"@
    ||| name == ".idea"@
    ||| name == ".vscode"@
}

pub open spec fn string_views(v: Seq<String>) -> Seq<Seq<char>> {
    v.map_values(|s: String| s@)
}

/// Strictly increasing in `lex_lt`, hence free of repeats.
pub open spec fn strictly_sorted(s: Seq<Seq<char>>) -> bool {
    forall|i: int, j: int| 0 <= i < j < s.len() ==> lex_lt(#[trigger] s[i], #[trigger] s[j])
}

/// Limits and policy of a repository walk.
#[derive(Debug, Clone, PartialEq, Eq)]
pub struct ScanOptions {
    pub max_depth: usize,
    pub max_entries: usize,
    pub ignore_policy: IgnorePolicy,
    pub max_ignored_records: usize,
}

impl Default for ScanOptions {
    fn default() -> (r: Self)
        ensures
            r.max_depth == 32,
            r.max_entries == 100_000,
            r.ignore_policy.names().len() == 0,
            r.max_ignored_records == 4_096,
    {
        ScanOptions {
            max_depth: 32,
            max_entries: 100_000,
            ignore_policy: IgnorePolicy::default(),
            max_ignored_records: 4_096,
        }
    }
}

/// Names to skip besides the defaults, kept sorted and free of repeats.
#[derive(Debug, PartialEq, Eq)]
pub struct IgnorePolicy {
    additional_names: Vec<String>,
}

impl Clone for IgnorePolicy {
    fn clone(&self) -> (r: Self)
        ensures
            r.names() == self.names(),
    {
        proof { use_type_invariant(self); }
        let names = self.additional_names.clone();
        assert(string_views(names@) =~= string_views(self.additional_names@)) by {
            assert forall|k: int| 0 <= k < names.len() implies names@[k] == self.additional_names@[k] by {
                assert(vstd::pervasive::cloned(self.additional_names@[k], names@[k]));
            }
        }
        IgnorePolicy { additional_names: names }
    }
}

/// `lex_lt(names[j], name)`.
fn sorts_before(names: &Vec<String>, j: usize, name: &Vec<char>) -> (r: bool)
    requires
        j < names.len(),
    ensures
        r == lex_lt(names@[j as int]@, name@),
{
    let current = chars_of(names[j].as_str());
    lex_less(current.as_slice(), name.as_slice())
}

impl Default for IgnorePolicy {
    fn default() -> (r: Self)
        ensures
            r.names().len() == 0,
    {
        let r = IgnorePolicy { additional_names: Vec::new() };
        assert(r.names() =~= Seq::<Seq<char>>::empty());
        r
    }
}

impl IgnorePolicy {
    #[verifier::type_invariant]
    spec fn inv(&self) -> bool {
        strictly_sorted(string_views(self.additional_names@))
    }

    /// The additional names, as character sequences.
    pub closed spec fn names(&self) -> Seq<Seq<char>> {
        string_views(self.additional_names@)
    }

    /// The given names, sorted with repeats removed.
    pub fn with_additional_names(additional_names: Vec<String>) -> (r: Self)
        ensures
            strictly_sorted(r.names()),
            forall|x: Seq<char>| r.names().contains(x) <==> string_views(additional_names@).contains(x),
    {
        let ghost input = string_views(additional_names@);
        let mut out: Vec<String> = Vec::new();
        let mut i: usize = 0;
        while i < additional_names.len()
            invariant
                input == string_views(additional_names@),
                i <= additional_names.len(),
                strictly_sorted(string_views(out@)),
                forall|x: Seq<char>| string_views(out@).contains(x) <==> input.subrange(0, i as int).contains(x),
            decreases additional_names.len() - i,
        {
            let ghost before = string_views(out@);
            let name = chars_of(additional_names[i].as_str());
            assert(input[i as int] == name@);
            let mut j: usize = 0;
            let mut found = false;
            while j < out.len() && sorts_before(&out, j, &name)
                invariant
                    j <= out.len(),
                    before == string_views(out@),
                    strictly_sorted(before),
                    forall|k: int| 0 <= k < j ==> lex_lt(#[trigger] before[k], name@),
                decreases out.len() - j,
            {
                j = j + 1;
            }
            let ghost at = j;
            if j < out.len() {
                let current = chars_of(out[j].as_str());
                if crate::text::same_chars(current.as_slice(), name.as_slice()) {
                    found = true;
                }
            }
            if !found {
                out.insert(j, additional_names[i].clone());
                proof {
                    let after = string_views(out@);
                    assert(after =~= before.insert(at as int, name@));
                    assert forall|p: int, q: int| 0 <= p < q < after.len() implies lex_lt(#[trigger] after[p], #[trigger] after[q]) by {
                        if at < before.len() {
                            lemma_lex_total(before[at as int], name@);
                        }
                        if q == at {
                            assert(after[p] == before[p]);
                        } else if p == at {
                            assert(after[q] == before[q - 1]);
                            if q - 1 > at {
                                lemma_lex_transitive(name@, before[at as int], before[q - 1]);
                            }
                        } else if p < at && q > at {
                            assert(after[p] == before[p]);
                            assert(after[q] == before[q - 1]);
                        } else if p > at {
                            assert(after[p] == before[p - 1]);
                            assert(after[q] == before[q - 1]);
                        } else {
                            assert(after[p] == before[p]);
                            assert(after[q] == before[q]);
                        }
                    }
                    let pre = input.subrange(0, i as int);
                    let post = input.subrange(0, i + 1);
                    assert(post =~= pre.push(name@));
                    assert forall|x: Seq<char>| after.contains(x) implies post.contains(x) by {
                        let k = choose|k: int| 0 <= k < after.len() && after[k] == x;
                        if k < at {
                            assert(before[k] == x);
                            assert(before.contains(x));
                            let m = choose|m: int| 0 <= m < pre.len() && pre[m] == x;
                            assert(post[m] == x);
                        } else if k > at {
                            assert(before[k - 1] == x);
                            assert(before.contains(x));
                            let m = choose|m: int| 0 <= m < pre.len() && pre[m] == x;
                            assert(post[m] == x);
                        } else {
                            assert(post[i as int] == x);
                        }
                    }
                    assert forall|x: Seq<char>| post.contains(x) implies after.contains(x) by {
                        let m = choose|m: int| 0 <= m < post.len() && post[m] == x;
                        if m < i {
                            assert(pre[m] == x);
                            assert(pre.contains(x));
                            assert(before.contains(x));
                            let k = choose|k: int| 0 <= k < before.len() && before[k] == x;
                            if k < at {
                                assert(after[k] == x);
                            } else {
                                assert(after[k + 1] == x);
                            }
                        } else {
                            assert(after[at as int] == x);
                        }
                    }
                }
            } else {
                proof {
                    let pre = input.subrange(0, i as int);
                    let post = input.subrange(0, i + 1);
                    assert(post =~= pre.push(name@));
                    assert(before[at as int] == name@);
                    assert forall|x: Seq<char>| before.contains(x) <==> post.contains(x) by {
                        if post.contains(x) {
                            let m = choose|m: int| 0 <= m < post.len() && post[m] == x;
                            if m < i {
                                assert(pre[m] == x);
                                assert(pre.contains(x));
                            }
                        }
                        if before.contains(x) {
                            assert(pre.contains(x));
                            let m = choose|m: int| 0 <= m < pre.len() && pre[m] == x;
                            assert(post[m] == x);
                        }
                    }
                }
            }
            i = i + 1;
        }
        assert(input.subrange(0, additional_names.len() as int) =~= input);
        IgnorePolicy { additional_names: out }
    }

    pub fn additional_names(&self) -> (r: &[String])
        ensures
            string_views(r@) == self.names(),
    {
        self.additional_names.as_slice()
    }

    /// `name` is a default or an additional ignored name.
    pub fn ignores(&self, name: &str) -> (r: bool)
        ensures
            r == (is_default_ignored(name@) || self.names().contains(name@)),
    {
        proof { use_type_invariant(self); }
        let c = chars_of(name);
        let cs = c.as_slice();
        let default_hit = equals_str(cs, ".git") || equals_str(cs, ".hg") || equals_str(cs, ".svn")
            || equals_str(cs, "target") || equals_str(cs, "node_modules") || equals_str(cs, ".venv")
            || equals_str(cs, "dist") || equals_str(cs, "build") || equals_str(cs, ".idea")
            || equals_str(cs, ".vscode");
        if default_hit {
            return true;
        }
        let names = &self.additional_names;
        let ghost v = string_views(names@);
        let mut lo: usize = 0;
        let mut hi: usize = names.len();
        while lo < hi
            invariant
                v == string_views(names@),
                v == self.names(),
                c@ == name@,
                strictly_sorted(v),
                lo <= hi <= v.len(),
                forall|k: int| 0 <= k < lo ==> lex_lt(#[trigger] v[k], c@),
                forall|k: int| hi <= k < v.len() ==> lex_lt(c@, #[trigger] v[k]),
            decreases hi - lo,
        {
            let mid = lo + (hi - lo) / 2;
            let current = chars_of(names[mid].as_str());
            if lex_less(current.as_slice(), c.as_slice()) {
                proof {
                    assert forall|k: int| 0 <= k < mid + 1 implies lex_lt(#[trigger] v[k], c@) by {
                        if k < mid {
                            lemma_lex_transitive(v[k], v[mid as int], c@);
                        }
                    }
                }
                lo = mid + 1;
            } else if crate::text::same_chars(current.as_slice(), c.as_slice()) {
                assert(v[mid as int] == names@[mid as int]@);
                assert(v[mid as int] == name@);
                return true;
            } else {
                proof {
                    lemma_lex_total(current@, c@);
                    assert forall|k: int| mid <= k < v.len() implies lex_lt(c@, #[trigger] v[k]) by {
                        if k > mid {
                            lemma_lex_transitive(c@, v[mid as int], v[k]);
                        }
                    }
                }
                hi = mid;
            }
        }
        proof {
            if v.contains(name@) {
                let k = choose|k: int| 0 <= k < v.len() && v[k] == name@;
                lemma_lex_irreflexive(name@);
            }
        }
        false
    }
}

#[derive(Debug, Clone, Copy, PartialEq, Eq, Structural)]
pub enum WalkLimitKind {
    Depth,
    Entries,
}

/// Where and why a walk stopped early.
#[derive(Debug, Clone, PartialEq, Eq)]
pub struct WalkTruncation {
    pub kind: WalkLimitKind,
    pub path: String,
    pub limit: usize,
}

#[derive(Debug, Clone, PartialEq, Eq)]
pub enum WalkCompletion {
    Complete,
    Truncated(WalkTruncation),
}

impl WalkCompletion {
    pub fn is_complete(&self) -> (r: bool)
        ensures
            r == (self is Complete),
    {
        match self {
            WalkCompletion::Complete => true,
            WalkCompletion::Truncated(_) => false,
        }
    }
}

/// Counters and outcome of a repository walk.
#[derive(Debug, Clone, PartialEq, Eq)]
pub struct RepositoryWalkSummary {
    pub max_depth: usize,
    pub max_entries: usize,
    pub visited_entries: usize,
    pub ignored_entries: usize,
    pub ignored_records_truncated: bool,
    pub max_depth_reached: usize,
    pub completion: WalkCompletion,
}

/// Errors of a repository walk.
#[derive(Debug)]
pub enum FsError {
    Io { path: PathBuf, source: io::Error },
    NotDirectory(PathBuf),
    LimitExceeded { kind: WalkLimitKind, path: PathBuf, limit: usize },
}


/// The reason for ignoring a name, when the policy ignores it.
pub open spec fn ignore_reason_for(name: Seq<char>, additional: Seq<Seq<char>>) -> Option<IgnoredPathReason> {
    if !(is_default_ignored(name) || additional.contains(name)) {
        None
    } else if name == ".git"@ || name == ".hg"@ || name == ".svn"@ {
        Some(IgnoredPathReason::GitMetadata)
    } else if name == "target"@ || name == "build"@ {
        Some(IgnoredPathReason::BuildOutput)
    } else if name == "node_modules"@ {
        Some(IgnoredPathReason::DependencyTree)
    } else if name == ".venv"@ {
        Some(IgnoredPathReason::VirtualEnvironment)
    } else if name == ".idea"@ || name == ".vscode"@ {
        Some(IgnoredPathReason::EditorState)
    } else if name == "dist"@ {
        Some(IgnoredPathReason::DistributionOutput)
    } else {
        Some(IgnoredPathReason::UserConfigured)
    }
}

/// `ignore_reason_for(name@, options.ignore_policy.names())`.
pub fn ignore_reason(name: &str, options: &ScanOptions) -> (r: Option<IgnoredPathReason>)
    ensures
        r == ignore_reason_for(name@, options.ignore_policy.names()),
{
    if !options.ignore_policy.ignores(name) {
        return None;
    }
    let c = chars_of(name);
    let cs = c.as_slice();
    Some(
        if equals_str(cs, ".git") || equals_str(cs, ".hg") || equals_str(cs, ".svn") {
            IgnoredPathReason::GitMetadata
        } else if equals_str(cs, "target") || equals_str(cs, "build") {
            IgnoredPathReason::BuildOutput
        } else if equals_str(cs, "node_modules") {
            IgnoredPathReason::DependencyTree
        } else if equals_str(cs, ".venv") {
            IgnoredPathReason::VirtualEnvironment
        } else if equals_str(cs, ".idea") || equals_str(cs, ".vscode") {
            IgnoredPathReason::EditorState
        } else if equals_str(cs, "dist") {
            IgnoredPathReason::DistributionOutput
        } else {
            IgnoredPathReason::UserConfigured
        },
    )
}

/// What the walk does with a directory entry before reading its metadata.
#[derive(Debug, Clone, Copy, PartialEq, Eq, Structural)]
pub enum EntryAdmission {
    /// The policy ignores it; it was counted and possibly recorded shallowly.
    Ignored,
    /// The entry limit is reached; the walk stops here.
    LimitReached,
    /// The entry is to be recorded.
    Admitted,
}

/// The mutable state of a repository walk.
#[derive(Debug, Clone, PartialEq, Eq)]
pub struct WalkState {
    pub records: Vec<FileRecord>,
    pub ignored_entries: usize,
    pub ignored_shallow: Vec<IgnoredShallowRecord>,
    pub ignored_records_truncated: bool,
    pub max_depth_reached: usize,
    pub completion: Option<WalkCompletion>,
}

/// Paths in non-decreasing order.
pub open spec fn sorted_by_path(s: Seq<FileRecord>) -> bool {
    forall|i: int, j: int| 0 <= i < j < s.len() ==> !lex_lt(#[trigger] s[j].path@, #[trigger] s[i].path@)
}

impl WalkState {
    pub fn new() -> (r: Self)
        ensures
            r.records@.len() == 0,
            r.ignored_entries == 0,
            r.ignored_shallow@.len() == 0,
            !r.ignored_records_truncated,
            r.max_depth_reached == 0,
            r.completion is None,
    {
        WalkState {
            records: Vec::new(),
            ignored_entries: 0,
            ignored_shallow: Vec::new(),
            ignored_records_truncated: false,
            max_depth_reached: 0,
            completion: None,
        }
    }

    /// A truncation was recorded; the walk visits nothing more.
    pub fn is_finished(&self) -> (r: bool)
        ensures
            r == (self.completion is Some),
    {
        self.completion.is_some()
    }

    /// Decides on entry `name` at repository-relative `path`: an ignored
    /// name is counted (and recorded while the shallow-record budget lasts);
    /// otherwise a full record list stops the walk with an entry-limit
    /// truncation at `path`.
    pub fn screen(&mut self, name: &str, path: String, kind: FileKind, options: &ScanOptions) -> (r: EntryAdmission)
        requires
            old(self).ignored_entries < usize::MAX,
        ensures
            match ignore_reason_for(name@, options.ignore_policy.names()) {
                Some(reason) => {
                    &&& r == EntryAdmission::Ignored
                    &&& final(self).ignored_entries == old(self).ignored_entries + 1
                    &&& final(self).records == old(self).records
                    &&& final(self).completion == old(self).completion
                    &&& final(self).max_depth_reached == old(self).max_depth_reached
                    &&& if old(self).ignored_shallow.len() < options.max_ignored_records {
                        &&& final(self).ignored_shallow@ == old(self).ignored_shallow@.push(
                            IgnoredShallowRecord { path, kind, reason })
                        &&& final(self).ignored_records_truncated == old(self).ignored_records_truncated
                    } else {
                        &&& final(self).ignored_shallow == old(self).ignored_shallow
                        &&& final(self).ignored_records_truncated
                    }
                },
                None => {
                    &&& final(self).records == old(self).records
                    &&& final(self).ignored_entries == old(self).ignored_entries
                    &&& final(self).ignored_shallow == old(self).ignored_shallow
                    &&& final(self).ignored_records_truncated == old(self).ignored_records_truncated
                    &&& final(self).max_depth_reached == old(self).max_depth_reached
                    &&& if old(self).records.len() >= options.max_entries {
                        &&& r == EntryAdmission::LimitReached
                        &&& final(self).completion == Some(WalkCompletion::Truncated(WalkTruncation {
                            kind: WalkLimitKind::Entries,
                            path,
                            limit: options.max_entries,
                        }))
                    } else {
                        &&& r == EntryAdmission::Admitted
                        &&& final(self).completion == old(self).completion
                    }
                },
            },
    {
        match ignore_reason(name, options) {
            Some(reason) => {
                self.ignored_entries = self.ignored_entries + 1;
                if self.ignored_shallow.len() < options.max_ignored_records {
                    self.ignored_shallow.push(IgnoredShallowRecord { path, kind, reason });
                } else {
                    self.ignored_records_truncated = true;
                }
                EntryAdmission::Ignored
            },
            None => {
                if self.records.len() >= options.max_entries {
                    self.completion = Some(WalkCompletion::Truncated(WalkTruncation {
                        kind: WalkLimitKind::Entries,
                        path,
                        limit: options.max_entries,
                    }));
                    EntryAdmission::LimitReached
                } else {
                    EntryAdmission::Admitted
                }
            },
        }
    }

    /// Records an admitted entry found at `depth`; `true` when the walk is
    /// to descend into it. A directory at the depth limit is recorded and
    /// stops the walk with a depth truncation.
    pub fn record(&mut self, path: String, kind: FileKind, size_bytes: u64, depth: usize, options: &ScanOptions) -> (descend: bool)
        ensures
            final(self).max_depth_reached == if depth > old(self).max_depth_reached { depth } else { old(self).max_depth_reached },
            final(self).records@ == old(self).records@.push(FileRecord { path, kind, size_bytes }),
            final(self).ignored_entries == old(self).ignored_entries,
            final(self).ignored_shallow == old(self).ignored_shallow,
            final(self).ignored_records_truncated == old(self).ignored_records_truncated,
            descend == (kind == FileKind::Directory && depth < options.max_depth),
            final(self).completion == if kind == FileKind::Directory && depth >= options.max_depth {
                Some(WalkCompletion::Truncated(WalkTruncation { kind: WalkLimitKind::Depth, path, limit: options.max_depth }))
            } else {
                old(self).completion
            },
    {
        if depth > self.max_depth_reached {
            self.max_depth_reached = depth;
        }
        let record_path = path.clone();
        self.records.push(FileRecord { path: record_path, kind, size_bytes });
        if kind == FileKind::Directory {
            if depth >= options.max_depth {
                self.completion = Some(WalkCompletion::Truncated(WalkTruncation {
                    kind: WalkLimitKind::Depth,
                    path,
                    limit: options.max_depth,
                }));
                return false;
            }
            return true;
        }
        false
    }

    /// The records sorted by path, the summary, and the shallow records.
    pub fn finish(self, options: &ScanOptions) -> (r: (Vec<FileRecord>, RepositoryWalkSummary, Vec<IgnoredShallowRecord>))
        ensures
            r.0@.to_multiset() == self.records@.to_multiset(),
            sorted_by_path(r.0@),
            r.1 == (RepositoryWalkSummary {
                max_depth: options.max_depth,
                max_entries: options.max_entries,
                visited_entries: self.records@.len() as usize,
                ignored_entries: self.ignored_entries,
                ignored_records_truncated: self.ignored_records_truncated,
                max_depth_reached: self.max_depth_reached,
                completion: match self.completion {
                    Some(c) => c,
                    None => WalkCompletion::Complete,
                },
            }),
            r.2 == self.ignored_shallow,
    {
        let visited = self.records.len();
        let sorted = sort_records_by_path(self.records);
        let summary = RepositoryWalkSummary {
            max_depth: options.max_depth,
            max_entries: options.max_entries,
            visited_entries: visited,
            ignored_entries: self.ignored_entries,
            ignored_records_truncated: self.ignored_records_truncated,
            max_depth_reached: self.max_depth_reached,
            completion: match self.completion {
                Some(c) => c,
                None => WalkCompletion::Complete,
            },
        };
        (sorted, summary, self.ignored_shallow)
    }
}

/// `lex_lt(a.path, b.path)`.
fn path_less(a: &FileRecord, b: &FileRecord) -> (r: bool)
    ensures
        r == lex_lt(a.path@, b.path@),
{
    let x = chars_of(a.path.as_str());
    let y = chars_of(b.path.as_str());
    lex_less(x.as_slice(), y.as_slice())
}

/// A stable sort of records by path.
pub fn sort_records_by_path(records: Vec<FileRecord>) -> (out: Vec<FileRecord>)
    ensures
        out@.to_multiset() == records@.to_multiset(),
        sorted_by_path(out@),
{
    broadcast use vstd::seq_lib::to_multiset_insert, vstd::seq_lib::to_multiset_remove;
    let mut input = records;
    let ghost all = input@;
    let mut out: Vec<FileRecord> = Vec::new();
    assert(out@.to_multiset() =~= vstd::multiset::Multiset::empty()) by {
        broadcast use vstd::seq_lib::group_to_multiset_ensures, vstd::multiset::lemma_multiset_empty_len;
    };
    while input.len() > 0
        invariant
            out@.to_multiset().add(input@.to_multiset()) == all.to_multiset(),
            sorted_by_path(out@),
        decreases input.len(),
    {
        let ghost in_before = input@;
        let ghost out_before = out@;
        let x = input.remove(0);
        let mut p: usize = 0;
        while p < out.len() && !path_less(&x, &out[p])
            invariant
                p <= out.len(),
                out@ == out_before,
                forall|k: int| 0 <= k < p ==> !lex_lt(x.path@, #[trigger] out@[k].path@),
            decreases out.len() - p,
        {
            p = p + 1;
        }
        let ghost at = p as int;
        out.insert(p, x);
        proof {
            let after = out@;
            assert(after =~= out_before.insert(at, x));
            assert(in_before.remove(0) =~= input@);
            assert(in_before[0] == x);
            assert forall|i: int, j: int| 0 <= i < j < after.len() implies !lex_lt(#[trigger] after[j].path@, #[trigger] after[i].path@) by {
                if j == at {
                    assert(after[i] == out_before[i]);
                    lemma_lex_total(x.path@, out_before[i].path@);
                } else if i == at {
                    assert(after[j] == out_before[j - 1]);
                    assert(lex_lt(x.path@, out_before[at].path@));
                    lemma_lex_total(x.path@, out_before[at].path@);
                    if j - 1 > at {
                        assert(!lex_lt(out_before[j - 1].path@, out_before[at].path@));
                        if lex_lt(out_before[j - 1].path@, x.path@) {
                            lemma_lex_transitive(out_before[j - 1].path@, x.path@, out_before[at].path@);
                        }
                    }
                } else if i < at && j > at {
                    assert(after[i] == out_before[i]);
                    assert(after[j] == out_before[j - 1]);
                } else if i > at {
                    assert(after[i] == out_before[i - 1]);
                    assert(after[j] == out_before[j - 1]);
                } else {
                    assert(after[i] == out_before[i]);
                    assert(after[j] == out_before[j]);
                }
            }
            vstd::seq_lib::to_multiset_insert(out_before, at, x);
            vstd::seq_lib::to_multiset_remove(in_before, 0);
            assert(out@.to_multiset() == out_before.to_multiset().insert(x));
            assert(input@.to_multiset() == in_before.to_multiset().remove(x));
            assert(in_before.to_multiset().count(x) > 0) by {
                broadcast use vstd::seq_lib::to_multiset_contains;
                assert(in_before.contains(x));
            }
            assert(out@.to_multiset().add(input@.to_multiset()) =~= out_before.to_multiset().add(in_before.to_multiset())) by {
                broadcast use vstd::multiset::group_multiset_axioms;
            }
        }
    }
    assert(input@.to_multiset() =~= vstd::multiset::Multiset::empty()) by {
        broadcast use vstd::seq_lib::group_to_multiset_ensures, vstd::multiset::lemma_multiset_empty_len;
    };
    assert(out@.to_multiset().add(input@.to_multiset()) =~= out@.to_multiset()) by {
        broadcast use vstd::multiset::group_multiset_axioms;
    };
    out
}

} // verus!

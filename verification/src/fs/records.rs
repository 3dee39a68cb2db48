//! The records that a repository walk produces.

use vstd::prelude::*;

verus! {

#[derive(Debug, Clone, Copy, PartialEq, Eq, Structural)]
pub enum FileKind {
    File,
    Directory,
    Symlink,
}

/// Why the walk skipped an entry without descending into it.
#[derive(Debug, Clone, Copy, PartialEq, Eq, Structural)]
pub enum IgnoredPathReason {
    GitMetadata,
    BuildOutput,
    DependencyTree,
    VirtualEnvironment,
    EditorState,
    DistributionOutput,
    UserConfigured,
}

/// One walked entry: its repository-relative path, kind and size.
#[derive(Debug, Clone, PartialEq, Eq)]
pub struct FileRecord {
    pub path: String,
    pub kind: FileKind,
    pub size_bytes: u64,
}

/// One ignored entry, recorded without its contents.
#[derive(Debug, Clone, PartialEq, Eq)]
pub struct IgnoredShallowRecord {
    pub path: String,
    pub kind: FileKind,
    pub reason: IgnoredPathReason,
}

} // verus!

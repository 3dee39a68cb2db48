//! Git reference names and commit time offsets.

use vstd::prelude::*;
use crate::text::{chars_of, has_prefix, starts_with_str};

verus! {

#[derive(Debug, Clone, Copy, PartialEq, Eq, Structural)]
pub enum GitReferenceKind {
    LocalBranch,
    RemoteBranch,
    Tag,
    Other,
}

pub open spec fn reference_kind_of(name: Seq<char>) -> GitReferenceKind {
    if has_prefix(name, "refs/heads/"@) {
        GitReferenceKind::LocalBranch
    } else if has_prefix(name, "refs/remotes/"@) {
        GitReferenceKind::RemoteBranch
    } else if has_prefix(name, "refs/tags/"@) {
        GitReferenceKind::Tag
    } else {
        GitReferenceKind::Other
    }
}

/// The kind of a full reference name, by its namespace.
pub fn reference_kind(name: &str) -> (r: GitReferenceKind)
    ensures
        r == reference_kind_of(name@),
{
    let n = chars_of(name);
    if starts_with_str(n.as_slice(), "refs/heads/") {
        GitReferenceKind::LocalBranch
    } else if starts_with_str(n.as_slice(), "refs/remotes/") {
        GitReferenceKind::RemoteBranch
    } else if starts_with_str(n.as_slice(), "refs/tags/") {
        GitReferenceKind::Tag
    } else {
        GitReferenceKind::Other
    }
}

/// `x / 60`, rounded toward zero.
pub open spec fn minutes_toward_zero(x: int) -> int {
    if x >= 0 { x / 60 } else { -((-x) / 60) }
}

/// A UTC offset in whole minutes (rounded toward zero), clamped to `i16`.
pub open spec fn offset_minutes_spec(offset_seconds: i32) -> i16 {
    let m = minutes_toward_zero(offset_seconds as int);
    if m > i16::MAX { i16::MAX } else if m < i16::MIN { i16::MIN } else { m as i16 }
}

/// `offset_minutes_spec(offset_seconds)`.
pub fn offset_minutes(offset_seconds: i32) -> (r: i16)
    ensures
        r == offset_minutes_spec(offset_seconds),
{
    let wide: i64 = offset_seconds as i64;
    let minutes: i64 = if wide >= 0 {
        wide / 60
    } else {
        -((-wide) / 60)
    };
    if minutes > 32767 {
        i16::MAX
    } else if minutes < -32768 {
        i16::MIN
    } else {
        minutes as i16
    }
}

} // verus!

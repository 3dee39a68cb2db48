//! Repository-relative paths, lexical containment, the walk's bookkeeping
//! and important-file classification.

pub mod containment;
pub mod records;
pub mod walker;
pub mod classify;
pub mod path;

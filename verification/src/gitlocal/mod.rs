//! Local Git repository structure: workspace manifests and members, the
//! `go.work` format, reference kinds, commit time offsets and the scope
//! graph under its node budget.

pub mod scope;
pub mod gowork;
pub mod refs;
pub mod discovery;
pub mod observe;
pub mod scope_graph;
pub mod manifests;

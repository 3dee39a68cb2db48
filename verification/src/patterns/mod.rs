//! Pattern definitions: bounded predicate programs over observations,
//! adoption stages, fixture kinds and executable-pack validation rules.

pub mod predicate;
pub mod model;
pub mod baseline;
pub mod overlay;
pub mod document;

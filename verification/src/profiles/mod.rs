//! Repository profile scoring: registry weights, the built-in catalog, and
//! the path and wording signals that profiles are recognised by.

pub mod weight;
pub mod signals;
pub mod registry;
pub mod catalog;
pub mod scoring;
pub mod branches;
pub mod report;

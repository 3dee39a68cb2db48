//! Repository structure audit library: path containment, Markdown context
//! masking, predicate programs and the small classifiers around them.

pub mod fs;
pub mod text;
pub mod utf8;
pub mod markdown;
pub mod patterns;
pub mod profiles;
pub mod remote;
pub mod report;
pub mod gitlocal;
pub mod github;
pub mod planner;

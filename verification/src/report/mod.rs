//! Report calculations: holdout calibration over a public synthetic corpus,
//! the pattern registry as the report publishes it, and the wording lint.

pub mod holdout;
pub mod registry;
pub mod wording;

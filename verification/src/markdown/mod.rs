//! Markdown source handling: hidden-context masking and the line, label and
//! target helpers that the document scanner is built from.

pub mod context;
pub mod routes;
pub mod document;
pub mod route_map;
pub mod diagnostics;
pub mod events;
pub mod scan;
pub mod order;
pub mod readme;

//! The pattern registry as the report publishes it.

use vstd::prelude::*;
use crate::patterns::baseline::common_patterns;
use crate::patterns::document::{registry_markdown, render_common_registry_markdown};

verus! {

/// The built-in pattern registry in Markdown, under the caller's schema
/// version.
pub fn pattern_registry_to_markdown(schema_version: &str) -> (r: String)
    ensures
        r@ == registry_markdown(schema_version@, common_patterns()),
{
    render_common_registry_markdown(schema_version)
}

} // verus!

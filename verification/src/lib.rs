//! Synthesis and application of source rewrites: an edit model, a
//! distributor that attributes edit requests to surface expressions, a
//! precedence-aware renderer, and a single-pass text splicer.

pub mod panic_detail;
pub mod rewrite;
pub mod text;

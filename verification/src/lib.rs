//! Reformats SQL `INSERT ... VALUES` statements into a canonical,
//! column-aligned layout, keeping the `--` line comments that stand next to
//! each statement.
//!
//! Parsing raw SQL is delegated to an external SQL parser behind a small
//! trusted boundary; the grouping of comments, the per-column width
//! computation, the rendering of each statement and the interleaving of
//! comments with statements are specified and verified here.

pub mod comments;
pub mod interleave;
pub mod model;
pub mod orchestrate;
pub mod parse;
pub mod render;
pub mod widths;

pub use model::{FmtError, Insert, InsertView, ParsedStatement};
pub use orchestrate::{format_insert_queries, format_parsed, is_insert_only};

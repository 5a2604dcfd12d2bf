//! Cleanup of the byproducts that compiling documents leaves behind: the rules that
//! select files by extension and content, and the two-phase run that applies them.

pub mod file_matcher;
pub mod path;
pub mod pipeline;
pub mod summary;
pub mod text;

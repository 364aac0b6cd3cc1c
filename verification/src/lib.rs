//! Re-stamps file names that embed a timestamp.
//!
//! Two independent stages make up the crate. `changes` selects the files
//! that are new on a branch below a path prefix, from what was read of a
//! repository. `rewrite` finds the first timestamp pattern that occurs in a
//! path and puts a given instant in its place. `string_utils` draws the
//! marker line that shows where a span lies, `spans` counts bytes into
//! characters, `text` compares strings, and `outside` holds the two calls
//! whose contracts are taken on trust.

pub mod changes;
pub mod outside;
pub mod rewrite;
pub mod spans;
pub mod string_utils;
pub mod text;

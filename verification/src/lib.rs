//! A verified core for a Vietnamese input method editor.
//!
//! The engine turns key strokes typed under the Telex or VNI convention into
//! precomposed Vietnamese text.  Each call to [`engine::Engine::on_key`]
//! mutates a small annotated letter buffer and returns an edit (a number of
//! trailing characters to delete and replacement characters to insert) that a
//! host applies to its visible text.

pub mod data;
pub mod engine;
pub mod input;

//! Read-only inspection of a data-ingestion index's configured sources.
//!
//! The crate models the two commands "describe one source" and "list all
//! sources": a typed command model built from raw argument values, a JSON
//! flattener that turns nested source parameters into dotted-path rows, a
//! verified sort for display rows, and the executors that assemble the
//! titled tables shown to the user.

pub mod command;
pub mod execute;
pub mod json;
pub mod metadata;
pub mod order;
pub mod render;
pub mod sort;

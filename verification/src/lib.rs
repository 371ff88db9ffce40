//! Renders a short, configurable summary of a git repository for a shell prompt.
//!
//! A configuration document lists the values to show. Each value is rendered
//! from the state of the repository into an optional piece of text, and the
//! pieces are joined, with separators only between pieces that were shown.

pub mod backend;
pub mod conf;
pub mod constants;
pub mod error;
pub mod format;
pub mod git;
pub mod text;
pub mod models;
pub mod node;

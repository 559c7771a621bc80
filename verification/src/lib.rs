//! Normalizes the top-level item order of Rust source files.
use vstd::prelude::*;

pub mod comments;
pub mod config;
pub mod engine;
pub mod files;
pub mod model;
pub mod normalizer;
pub mod ordering;
pub mod ordering_laws;
pub mod render;
pub mod report;
pub mod segment;
pub mod spacing;
pub mod stability;
pub mod syntax;
pub mod text;

verus! {
} // verus!

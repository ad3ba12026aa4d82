//! A compile-and-cache script runner's core: script identity hashing,
//! cache-workspace addressing, dependency-declaration extraction and
//! rewriting, build-manifest synthesis, source assembly, and the decisions
//! that drive the build/run pipeline.

pub mod cache;
pub mod errors;
pub mod extract;
pub mod hash;
pub mod pipeline;
pub mod runner;
pub mod scriptbuilder;
pub mod text;

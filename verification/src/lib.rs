//! Audits a resolved package graph against loaded advisory databases,
//! matching every finding back to a graph node, applying the documented
//! pre-release workaround, tracking ignore-list usage, and emitting one
//! complete, consistent diagnostic stream.

pub mod advisory;
pub mod bits;
pub mod cfg;
pub mod diag;
pub mod engine;
pub mod laws;
pub mod output;
pub mod package;
pub mod report;
pub mod version;
pub mod yank;

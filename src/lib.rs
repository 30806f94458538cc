//! Persistence core for a team-management tool: entity models, an upsert-by-id
//! collection, a repository with domain queries, and the decision logic of a
//! directory-snapshot backup manager; beside it, prompt templates, conversation
//! context, configuration, and the decisions of scheduled and automated
//! workflows.
//!
//! File and directory access is left to the caller; this crate computes what to
//! read, write, keep and remove. The properties the repository and the backup
//! manager promise across calls are proved in `laws`.

pub mod automation;
pub mod backup;
pub mod clock;
pub mod collection;
pub mod config;
pub mod context;
pub mod ids;
pub mod laws;
pub mod models;
pub mod prompts;
pub mod query;
pub mod repository;
pub mod scheduler;
pub mod store;
pub mod text;

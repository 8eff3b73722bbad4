//! Workbench: a configuration-driven task runner.
//!
//! A workspace configuration names tasks, their shell or argv invocations and
//! their dependency edges.  The executor runs a target task after first
//! running its transitive dependencies, skips tasks whose outputs are newer
//! than their inputs, and reports progress through a console interface.

pub mod builtin;
pub mod cli;
pub mod config;
pub mod console;
pub mod errors;
pub mod exec;
pub mod files;
pub mod handlers;
pub mod query;
pub mod shell;
pub mod staleness;
pub mod task_path;

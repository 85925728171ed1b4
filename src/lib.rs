//! Builds a process environment from a declarative profile of injections,
//! with a verified value-merge algebra, resource-path resolution, command
//! output parsing and a staged lifecycle with rollback.
use vstd::prelude::*;

pub mod text;
pub mod merge;
pub mod ambient;
pub mod command;
pub mod paths;
pub mod resource;
pub mod envmap;
pub mod profile;
pub mod env;
pub mod output;
pub mod stage;
pub mod injection;
pub mod symlink;
pub mod schedule;
pub mod injections;
pub mod self_update;
pub mod config;
pub mod preview;
pub mod loader;

verus! {

/// What a run ended with: the exit code of the child command, when one ran.
#[derive(Debug, Clone, Copy, PartialEq, Eq, Structural)]
pub struct RunResult {
    pub exit_code: Option<i32>,
}

} // verus!

//! The failures that the library reports.

use vstd::prelude::*;

use crate::task_path::TaskPath;

verus! {

/// Every failure the library reports.  Failures raised inside outside crates
/// (file I/O, glob expansion, process spawning) are carried as their rendered
/// messages.
#[derive(Debug)]
pub enum WorkbenchError {
    /// An I/O failure, carrying its rendered message.
    Io(String),
    /// A malformed glob pattern, carrying the rendered pattern error.
    GlobPattern(String),
    /// An I/O failure while expanding a glob pattern.
    GlobIo(String),
    /// A string that does not match the task-path grammar.
    InvalidTaskPath(String),
    /// The addressed task is not present in the configuration.
    TaskNotFound(TaskPath),
    /// Several dependency failures collected from one fan-out.
    Aggregate(Vec<WorkbenchError>),
    /// A string-form command in a task whose shell setting resolves to none.
    ShellRequired(TaskPath, String),
    /// The dependency walk went deeper than any acyclic graph of this
    /// configuration allows.
    DependencyCycle(TaskPath),
}

} // verus!

use vstd::prelude::*;

verus! {

/// What the scheduler reports when it cannot go on.
#[derive(Debug, Clone, PartialEq, Eq)]
pub enum Error {
    /// A pattern is not a valid glob; globset's message.
    InvalidGlob(String),
    /// A step depends on a name that is not a step of its group.
    UnknownDependency { step: String, depends: String },
    /// A latch was named that no step of the group has.
    UnknownStep(String),
    /// Steps are left that wait on each other.
    DependencyCycle,
    /// The run was interrupted before any step failed.
    Interrupted,
    /// A check_list_files script failed; what it printed.
    CheckListFailed { stdout: String },
    /// A step has no script for the run.
    NoRunCommand(String),
    /// A step's script exited with failure: the command and what it printed.
    ScriptFailed { command: String, output: String },
    /// Not a semantic version.
    InvalidVersion(String),
    /// The configuration needs a newer version than this one.
    VersionTooOld { required: String },
    /// A template could not be rendered; tera's message.
    Template(String),
}

} // verus!

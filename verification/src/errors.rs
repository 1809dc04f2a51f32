//! The failure taxonomy of a run. Every variant is fatal: it unwinds the
//! run and skips the remaining tasks. A linter exiting non-zero, an empty
//! report and an unrecognized executor are not failures and have no
//! variant here.

use vstd::prelude::*;
use vstd::string::StringExecFns;

verus! {

/// Why a run was aborted.
#[derive(Debug)]
pub enum PipelineError {
    /// The input document is missing or unreadable; no task was processed.
    DocumentRead,
    /// A task's name cannot serve as a single path segment.
    InvalidTaskName { name: String },
    /// The file a task materializes to already exists, within this run or
    /// from an earlier one.
    FileConflict { name: String },
    /// Some other filesystem failure during materialization or directory
    /// setup.
    Io,
    /// The external linter binary is absent from the execution path; the
    /// field names it so the operator can install it.
    ToolNotFound { tool: String },
    /// The linter process could not be spawned or communicated with, for
    /// a reason other than absence.
    Invocation,
}

/// The user-facing description of the failure.
pub open spec fn spec_message(e: PipelineError) -> Seq<char> {
    match e {
        PipelineError::DocumentRead => "could not read the task-definition document"@,
        PipelineError::InvalidTaskName { name } => "task name not usable as a file name: "@
            + name@,
        PipelineError::FileConflict { name } => "output file already exists: "@ + name@,
        PipelineError::Io => "filesystem failure while materializing"@,
        PipelineError::ToolNotFound { tool } => "executable for "@ + tool@
            + " not found in $PATH"@,
        PipelineError::Invocation => "could not run the linter process"@,
    }
}

impl PipelineError {
    pub fn message(&self) -> (r: String)
        ensures
            r@ == spec_message(*self),
    {
        match self {
            PipelineError::DocumentRead => "could not read the task-definition document"
                .to_owned(),
            PipelineError::InvalidTaskName { name } => {
                let mut m = "task name not usable as a file name: ".to_owned();
                m.append(name.as_str());
                m
            },
            PipelineError::FileConflict { name } => {
                let mut m = "output file already exists: ".to_owned();
                m.append(name.as_str());
                m
            },
            PipelineError::Io => "filesystem failure while materializing".to_owned(),
            PipelineError::ToolNotFound { tool } => {
                let mut m = "executable for ".to_owned();
                m.append(tool.as_str());
                m.append(" not found in $PATH");
                m
            },
            PipelineError::Invocation => "could not run the linter process".to_owned(),
        }
    }
}

} // verus!

//! What can go wrong, and how it is reported: each failure names the
//! operation that was being attempted and the path it was attempted on.

use crate::atomic::{WriteState, WriteStep};
use vstd::prelude::*;
use vstd::string::StringExecFns;

verus! {

/// A failed operation of a generation or an installation.
#[derive(Debug, PartialEq, Eq)]
pub enum Failure {
    /// The output directory of a generation could not be created.
    CreateOutputDir { path: String },
    /// The home directory could not be determined.
    HomeDirUnknown,
    /// The configuration directory could not be created.
    CreateConfigDir { path: String },
    /// The existing configuration file could not be read.
    ReadConfig { path: String },
    /// A step of an atomic write failed. `path` is the file the step was
    /// working on: the temporary sibling, or for the rename the final path.
    AtomicWrite { step: WriteStep, path: String },
}

/// Mathematical value of a [`Failure`].
pub ghost enum FailureValue {
    CreateOutputDir { path: Seq<char> },
    HomeDirUnknown,
    CreateConfigDir { path: Seq<char> },
    ReadConfig { path: Seq<char> },
    AtomicWrite { step: WriteStep, path: Seq<char> },
}

impl View for Failure {
    type V = FailureValue;

    open spec fn view(&self) -> FailureValue {
        match self {
            Failure::CreateOutputDir { path } => FailureValue::CreateOutputDir { path: path@ },
            Failure::HomeDirUnknown => FailureValue::HomeDirUnknown,
            Failure::CreateConfigDir { path } => FailureValue::CreateConfigDir { path: path@ },
            Failure::ReadConfig { path } => FailureValue::ReadConfig { path: path@ },
            Failure::AtomicWrite { step, path } => FailureValue::AtomicWrite {
                step: *step,
                path: path@,
            },
        }
    }
}

/// How a failed step of an atomic write is introduced in a message.
pub open spec fn step_label(step: WriteStep) -> Seq<char> {
    match step {
        WriteStep::CreateTemp => "creating "@,
        WriteStep::WriteTemp => "writing "@,
        WriteStep::FlushTemp => "flushing "@,
        WriteStep::Rename => "renaming to "@,
    }
}

/// The file a step of an atomic write works on, and so the one a failure
/// of that step is charged to: the final path for the rename, the temporary
/// sibling for every step before it.
pub open spec fn step_path(step: WriteStep, tmp: Seq<char>, path: Seq<char>) -> Seq<char> {
    if step.replaces_final() {
        path
    } else {
        tmp
    }
}

impl FailureValue {
    /// The message of a failure: what was attempted, and on which path.
    pub open spec fn message(self) -> Seq<char> {
        match self {
            FailureValue::CreateOutputDir { path } => "Failed to create output dir: "@ + path,
            FailureValue::HomeDirUnknown => "Could not determine home directory"@,
            FailureValue::CreateConfigDir { path } => "create dir "@ + path,
            FailureValue::ReadConfig { path } => "reading "@ + path,
            FailureValue::AtomicWrite { step, path } => step_label(step) + path,
        }
    }
}

impl Failure {
    /// The message of this failure.
    pub fn message(&self) -> (text: String)
        ensures
            text@ == self@.message(),
    {
        match self {
            Failure::CreateOutputDir { path } => {
                let mut text = String::from_str("Failed to create output dir: ");
                text.append(path.as_str());
                text
            },
            Failure::HomeDirUnknown => String::from_str("Could not determine home directory"),
            Failure::CreateConfigDir { path } => {
                let mut text = String::from_str("create dir ");
                text.append(path.as_str());
                text
            },
            Failure::ReadConfig { path } => {
                let mut text = String::from_str("reading ");
                text.append(path.as_str());
                text
            },
            Failure::AtomicWrite { step, path } => {
                let mut text = match step {
                    WriteStep::CreateTemp => String::from_str("creating "),
                    WriteStep::WriteTemp => String::from_str("writing "),
                    WriteStep::FlushTemp => String::from_str("flushing "),
                    WriteStep::Rename => String::from_str("renaming to "),
                };
                text.append(path.as_str());
                text
            },
        }
    }
}

/// The failure that an atomic write of `path` through the sibling `tmp`
/// has ended in: `Some` exactly when its state is `Failed`, naming the step
/// that failed and the file that step was working on.
pub fn write_failure(state: &WriteState, tmp: &str, path: &str) -> (failure: Option<Failure>)
    ensures
        match *state {
            WriteState::Failed(step) => failure is Some && failure->0@ == (FailureValue::AtomicWrite {
                step,
                path: step_path(step, tmp@, path@),
            }),
            _ => failure is None,
        },
{
    match state {
        WriteState::Failed(step) => {
            let charged = match step {
                WriteStep::Rename => String::from_str(path),
                _ => String::from_str(tmp),
            };
            Some(Failure::AtomicWrite { step: *step, path: charged })
        },
        _ => None,
    }
}

} // verus!

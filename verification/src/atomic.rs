//! Atomic file writer, as a protocol.
//!
//! A file is replaced by writing its new bytes to a temporary sibling,
//! flushing them, and renaming the sibling onto the final path. This module
//! holds the decisions of that protocol: which operation comes next, where a
//! run ends, and which operation a failure is charged to. The caller performs
//! each operation on the file system and reports whether it succeeded.

use vstd::prelude::*;

verus! {

/// The file-system operations of one atomic write, in the order in which
/// they are performed.
#[derive(Clone, Copy, PartialEq, Eq, Debug, Structural)]
pub enum WriteStep {
    /// Create (or truncate) the temporary sibling.
    CreateTemp,
    /// Write all bytes to the temporary sibling.
    WriteTemp,
    /// Flush the temporary sibling.
    FlushTemp,
    /// Rename the temporary sibling onto the final path.
    Rename,
}

/// Where an atomic write stands.
#[derive(Clone, Copy, PartialEq, Eq, Debug, Structural)]
pub enum WriteState {
    /// The given step is the next one to perform.
    Pending(WriteStep),
    /// Every step succeeded; the final path holds the new bytes.
    Done,
    /// The given step failed; nothing further is attempted.
    Failed(WriteStep),
}

impl WriteStep {
    /// The step that follows this one, if any.
    pub open spec fn successor(self) -> Option<WriteStep> {
        match self {
            WriteStep::CreateTemp => Some(WriteStep::WriteTemp),
            WriteStep::WriteTemp => Some(WriteStep::FlushTemp),
            WriteStep::FlushTemp => Some(WriteStep::Rename),
            WriteStep::Rename => None,
        }
    }

    /// Whether this step is the one that changes what the final path
    /// holds. Only the rename does.
    pub open spec fn replaces_final(self) -> bool {
        self == WriteStep::Rename
    }
}

impl WriteState {
    /// The state that follows `self` once the pending step has been
    /// attempted with the given outcome. A finished run stays as it is.
    pub open spec fn after(self, succeeded: bool) -> WriteState {
        match self {
            WriteState::Pending(step) => if !succeeded {
                WriteState::Failed(step)
            } else {
                match step.successor() {
                    Some(next) => WriteState::Pending(next),
                    None => WriteState::Done,
                }
            },
            WriteState::Done => WriteState::Done,
            WriteState::Failed(step) => WriteState::Failed(step),
        }
    }

    /// A fresh run: the temporary sibling is to be created first.
    pub fn start() -> (state: WriteState)
        ensures
            state == WriteState::Pending(WriteStep::CreateTemp),
    {
        WriteState::Pending(WriteStep::CreateTemp)
    }

    /// The operation to perform now, or `None` when the run has ended.
    pub fn next_step(&self) -> (step: Option<WriteStep>)
        ensures
            step == match *self {
                WriteState::Pending(pending) => Some(pending),
                _ => None,
            },
    {
        match self {
            WriteState::Pending(pending) => Some(*pending),
            _ => None,
        }
    }

    /// Takes in the outcome of the pending step: success moves on to the
    /// next step, or to `Done` after the rename; failure ends the run at that
    /// step.
    pub fn advance(&self, succeeded: bool) -> (next: WriteState)
        ensures
            next == self.after(succeeded),
    {
        match self {
            WriteState::Pending(step) => {
                if !succeeded {
                    WriteState::Failed(*step)
                } else {
                    match step {
                        WriteStep::CreateTemp => WriteState::Pending(WriteStep::WriteTemp),
                        WriteStep::WriteTemp => WriteState::Pending(WriteStep::FlushTemp),
                        WriteStep::FlushTemp => WriteState::Pending(WriteStep::Rename),
                        WriteStep::Rename => WriteState::Done,
                    }
                }
            },
            WriteState::Done => WriteState::Done,
            WriteState::Failed(step) => WriteState::Failed(*step),
        }
    }
}

/// The extension that marks a temporary sibling: the sibling of a file is
/// named like the file, with this extension in place of the file's own.
pub fn temp_extension() -> (extension: &'static str)
    ensures
        extension@ == "tmp"@,
{
    "tmp"
}

} // verus!

//! What can go wrong when working with a workspace.

use vstd::prelude::*;
use vstd::string::StringExecFns;

verus! {

/// The errors of a workspace. Each names the file at which it arose.
#[derive(Debug, Clone, PartialEq, Eq)]
pub enum WorkspaceError {
    /// A file could not be read; the text says why.
    IoError(String),
    /// The file at the path could not be parsed or converted.
    ParseError(String, String),
    /// The file at the path holds something invalid.
    ValidationError(String, String),
}

/// An error of a workspace, its texts as character sequences.
pub enum WorkspaceErrorModel {
    IoError(Seq<char>),
    ParseError(Seq<char>, Seq<char>),
    ValidationError(Seq<char>, Seq<char>),
}

impl View for WorkspaceError {
    type V = WorkspaceErrorModel;

    open spec fn view(&self) -> WorkspaceErrorModel {
        match *self {
            WorkspaceError::IoError(reason) => WorkspaceErrorModel::IoError(reason@),
            WorkspaceError::ParseError(path, reason) => WorkspaceErrorModel::ParseError(
                path@,
                reason@,
            ),
            WorkspaceError::ValidationError(path, reason) => WorkspaceErrorModel::ValidationError(
                path@,
                reason@,
            ),
        }
    }
}

/// The message of an error of a workspace.
pub open spec fn workspace_error_message(error: WorkspaceErrorModel) -> Seq<char> {
    match error {
        WorkspaceErrorModel::IoError(reason) => "There was a problem reading workspace files: "@
            + reason,
        WorkspaceErrorModel::ParseError(path, reason) => "Workspace file at "@ + path
            + " could not be parsed: "@ + reason,
        WorkspaceErrorModel::ValidationError(path, reason) => "Workspace file at "@ + path
            + " was invalid: "@ + reason,
    }
}

impl WorkspaceError {
    /// The message of the error.
    pub fn to_string(&self) -> (r: String)
        ensures
            r@ == workspace_error_message(self@),
    {
        match self {
            WorkspaceError::IoError(reason) => {
                let mut message = String::from_str("There was a problem reading workspace files: ");
                message.append(reason.as_str());
                message
            },
            WorkspaceError::ParseError(path, reason) => {
                let mut message = String::from_str("Workspace file at ");
                message.append(path.as_str());
                message.append(" could not be parsed: ");
                message.append(reason.as_str());
                message
            },
            WorkspaceError::ValidationError(path, reason) => {
                let mut message = String::from_str("Workspace file at ");
                message.append(path.as_str());
                message.append(" was invalid: ");
                message.append(reason.as_str());
                message
            },
        }
    }
}

} // verus!

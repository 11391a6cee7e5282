//! Errors of the comparison tool.
use vstd::prelude::*;

verus! {

/// Errors that stop a comparison run; paths are held as text.
#[derive(Debug, Clone)]
pub enum DiffCopyError {
    SourceNotFound(String),
    TargetNotFound(String),
    BaseNotFound(String),
    OutputExists(String),
    ProtectedPath(String),
    ConfigReadError { path: String, message: String },
    ConfigParseError { path: String, message: String },
    MissingConfigField(String),
    InvalidGlobPattern(String),
    FileReadError { path: String, message: String },
    FileWriteError { path: String, message: String },
    FileCopyError { source_path: String, dest: String, message: String },
    DirectoryCreateError(String, String),
    DirectoryDeleteError(String, String),
    PermissionDenied(String),
    UserCancelled,
    InvalidFilterStatus(String),
    InvalidCheckPermissionsMode(String),
    InvalidMergeStyle(String),
    InvalidColorMode(String),
    InvalidLogLevel(String),
    ThreeWayRequiresBase,
    Other(String),
}

} // verus!

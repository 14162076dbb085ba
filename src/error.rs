//! The errors that scaffolding and deployment report.

use vstd::prelude::*;

verus! {

/// Every failure that the library reports to its caller.
#[derive(PartialEq, Eq, Structural, Clone, Copy, Debug)]
pub enum CloudRunError {
    /// The target directory of a new project already exists.
    DirectoryExists,
    /// The target directory already holds a package manifest.
    ManifestExists,
    /// The metadata query exited with a failure status.
    MetadataCommandFailed,
    /// The metadata query's output lacks a field or is not well formed.
    MetadataParseError,
    /// No package stands at the workspace root or at the current directory.
    NoRootPackage,
    /// No catalog entry ends with the given suffix.
    UnknownEventType,
    /// More than one catalog entry ends with the given suffix.
    AmbiguousEventType,
    /// Creating or writing a file failed.
    IoError,
    /// An external command could not be started.
    SubprocessSpawnFailure,
    /// An external command exited with a failure status.
    SubprocessNonZeroExit,
}

} // verus!

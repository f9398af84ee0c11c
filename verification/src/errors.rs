//! The error taxonomy of the explorer service.
//!
//! Every operation reports failure as one of these kinds; the host layer
//! flattens a kind to a human-readable string via [`FsError::message`].

use vstd::prelude::*;

verus! {

/// One failure kind per way an operation can go wrong.
#[derive(Clone, Copy, Debug, PartialEq, Eq, Structural)]
pub enum FsError {
    /// The referenced filesystem entry does not exist.
    PathNotFound,
    /// A directory was required but a regular file was given.
    NotADirectory,
    /// File content is not valid UTF-8.
    InvalidEncoding,
    /// Generic OS-level I/O failure (permissions, device errors).
    IoError,
    /// Per-entry metadata could not be retrieved during a listing.
    MetadataReadError,
    /// The trusted home directory cannot be resolved on this host.
    HomeDirectoryUnavailable,
    /// The OS rename primitive failed.
    RenameFailed,
    /// A resolved path would escape the intended base directory.
    PathEscapesSandbox,
}

impl FsError {
    /// The human-readable description of this error kind.
    pub open spec fn spec_message(self) -> Seq<char> {
        match self {
            FsError::PathNotFound => "path does not exist"@,
            FsError::NotADirectory => "path is not a directory"@,
            FsError::InvalidEncoding => "file content is not valid UTF-8"@,
            FsError::IoError => "I/O error"@,
            FsError::MetadataReadError => "could not read entry metadata"@,
            FsError::HomeDirectoryUnavailable => "home directory not found"@,
            FsError::RenameFailed => "rename failed"@,
            FsError::PathEscapesSandbox => "path escapes the sandbox base"@,
        }
    }

    /// A display string for this error kind, suitable for direct display.
    pub fn message(&self) -> (s: String)
        ensures
            s@ == self.spec_message(),
    {
        match self {
            FsError::PathNotFound => "path does not exist".to_owned(),
            FsError::NotADirectory => "path is not a directory".to_owned(),
            FsError::InvalidEncoding => "file content is not valid UTF-8".to_owned(),
            FsError::IoError => "I/O error".to_owned(),
            FsError::MetadataReadError => "could not read entry metadata".to_owned(),
            FsError::HomeDirectoryUnavailable => "home directory not found".to_owned(),
            FsError::RenameFailed => "rename failed".to_owned(),
            FsError::PathEscapesSandbox => "path escapes the sandbox base".to_owned(),
        }
    }
}

} // verus!

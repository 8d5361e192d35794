//! The kinds of failure that the library reports.

use vstd::prelude::*;

verus! {

/// Why an operation of the library failed.
#[derive(Clone, Copy, Debug, PartialEq, Eq, Structural)]
pub enum ErrorKind {
    /// The configuration, a watch expression or the log level is not usable.
    ConfigInvalid,
    /// The remote could not be reached.
    RemoteUnreachable,
    /// The remote advertised no reference at all.
    EmptyAdvertisement,
    /// No advertised reference is watched.
    NoWatchMatch,
    /// The target reference is not among the advertised references.
    UnknownTargetRef,
    /// A reference has no object id in the advertisement.
    OidUnresolved,
    /// A text is not the hexadecimal form of an object id.
    InvalidOid,
    /// No note is stored for the commit.
    NoteMissing,
    /// A stored note cannot be read as a note.
    InvalidNote,
    /// A stored note carries a version that this library does not read.
    VersionMismatch,
    /// The merged index holds entries in conflict.
    Conflict,
    /// A commit was not found in the local repository.
    CommitLookup,
    /// The merged tree could not be written.
    TreeWrite,
    /// A reference or a note could not be written.
    RefUpdate,
}

impl ErrorKind {
    /// A sentence that describes the failure.
    pub fn message(&self) -> (r: &'static str)
        ensures
            r@ == self.spec_message(),
    {
        match self {
            ErrorKind::ConfigInvalid => "Invalid configuration",
            ErrorKind::RemoteUnreachable => "Remote is unreachable",
            ErrorKind::EmptyAdvertisement => "No remote references found",
            ErrorKind::NoWatchMatch => "No matching watched reference found",
            ErrorKind::UnknownTargetRef => "Could not find the target reference on remote",
            ErrorKind::OidUnresolved => "No valid OIDs resolved",
            ErrorKind::InvalidOid => "Invalid object id",
            ErrorKind::NoteMissing => "No note found for commit",
            ErrorKind::InvalidNote => "Invalid note for commit",
            ErrorKind::VersionMismatch => "Unsupported note version",
            ErrorKind::Conflict => "Index is in conflict after merge -- skipping",
            ErrorKind::CommitLookup => "Commit not found",
            ErrorKind::TreeWrite => "Unable to write merged tree",
            ErrorKind::RefUpdate => "Unable to update reference",
        }
    }

    /// The sentence that `message` returns.
    pub open spec fn spec_message(&self) -> Seq<char> {
        match self {
            ErrorKind::ConfigInvalid => "Invalid configuration"@,
            ErrorKind::RemoteUnreachable => "Remote is unreachable"@,
            ErrorKind::EmptyAdvertisement => "No remote references found"@,
            ErrorKind::NoWatchMatch => "No matching watched reference found"@,
            ErrorKind::UnknownTargetRef => "Could not find the target reference on remote"@,
            ErrorKind::OidUnresolved => "No valid OIDs resolved"@,
            ErrorKind::InvalidOid => "Invalid object id"@,
            ErrorKind::NoteMissing => "No note found for commit"@,
            ErrorKind::InvalidNote => "Invalid note for commit"@,
            ErrorKind::VersionMismatch => "Unsupported note version"@,
            ErrorKind::Conflict => "Index is in conflict after merge -- skipping"@,
            ErrorKind::CommitLookup => "Commit not found"@,
            ErrorKind::TreeWrite => "Unable to write merged tree"@,
            ErrorKind::RefUpdate => "Unable to update reference"@,
        }
    }
}

} // verus!

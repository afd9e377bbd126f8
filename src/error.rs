//! The ways a run can fail.
use vstd::prelude::*;
use vstd::string::StringExecFns;

verus! {

/// Every failure is terminal for the run that meets it.
#[derive(Debug, Clone, Copy, PartialEq, Eq, Structural)]
pub enum ForkError {
    /// The registry answered with a status other than success, or the transfer failed.
    NetworkError,
    /// The release archive could not be decompressed or read as an archive.
    ArchiveFormatError,
    /// The unpacked archive does not hold exactly one top-level entry.
    MalformedArchiveLayout,
    /// The provenance file was found but records no revision.
    MissingVcsRevision,
    /// The release records no provenance, so it cannot be pinned.
    NoVcsInfoForRelease,
    /// The registry entry declares no repository.
    NoRepositoryDeclared,
    /// The repository has no such revision.
    RevisionNotFound,
    /// The destination directory is already occupied.
    DestinationExists,
    /// The manifest cannot be read, or a table on the override path is not a table.
    ManifestParseError,
    /// No workspace package has the name.
    PackageNotFound,
    /// Several workspace packages have the name.
    AmbiguousPackageMatch,
}

impl ForkError {
    /// A short description of the failure.
    pub open spec fn description(&self) -> Seq<char> {
        match self {
            ForkError::NetworkError => "network error"@,
            ForkError::ArchiveFormatError => "archive format error"@,
            ForkError::MalformedArchiveLayout => "malformed archive layout"@,
            ForkError::MissingVcsRevision => "provenance file records no revision"@,
            ForkError::NoVcsInfoForRelease => "no provenance recorded for this release"@,
            ForkError::NoRepositoryDeclared => "no repository declared"@,
            ForkError::RevisionNotFound => "revision not found"@,
            ForkError::DestinationExists => "destination already exists"@,
            ForkError::ManifestParseError => "malformed manifest"@,
            ForkError::PackageNotFound => "package not found"@,
            ForkError::AmbiguousPackageMatch => "several packages match"@,
        }
    }

    /// A short description of the failure.
    pub fn describe(&self) -> (r: String)
        ensures
            r@ == self.description(),
    {
        match self {
            ForkError::NetworkError => String::from_str("network error"),
            ForkError::ArchiveFormatError => String::from_str("archive format error"),
            ForkError::MalformedArchiveLayout => String::from_str("malformed archive layout"),
            ForkError::MissingVcsRevision => String::from_str("provenance file records no revision"),
            ForkError::NoVcsInfoForRelease => String::from_str("no provenance recorded for this release"),
            ForkError::NoRepositoryDeclared => String::from_str("no repository declared"),
            ForkError::RevisionNotFound => String::from_str("revision not found"),
            ForkError::DestinationExists => String::from_str("destination already exists"),
            ForkError::ManifestParseError => String::from_str("malformed manifest"),
            ForkError::PackageNotFound => String::from_str("package not found"),
            ForkError::AmbiguousPackageMatch => String::from_str("several packages match"),
        }
    }
}

} // verus!

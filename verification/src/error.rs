//! The ways in which import, resolution and synchronisation fail.

use vstd::prelude::*;

verus! {

/// The kinds of failure.
#[derive(Clone, Copy, Debug, PartialEq, Eq, Structural)]
pub enum SyncError {
    /// No candidate version satisfies an intent.
    NoMatchingVersion,
    /// The registry has no record of a package name.
    PackageNotFound,
    /// None or several import modes were asked for.
    ConflictingImportMode,
    /// A declared package has no resolved target version.
    MissingResolution,
}

/// A failure, and the package over which it came.
#[derive(Debug, PartialEq, Eq)]
pub struct PackageFailure {
    pub package: String,
    pub error: SyncError,
}

/// The sentence that tells a user of a failure of the given kind.
pub open spec fn message_of(error: SyncError) -> Seq<char> {
    match error {
        SyncError::NoMatchingVersion => "no version on offer satisfies the declared intent"@,
        SyncError::PackageNotFound => "the registry does not know the package"@,
        SyncError::ConflictingImportMode => "exactly one import mode must be chosen"@,
        SyncError::MissingResolution => "no target version was resolved for the package"@,
    }
}

impl SyncError {
    /// The sentence that tells a user of the failure.
    pub fn message(&self) -> (text: &'static str)
        ensures
            text@ == message_of(*self),
    {
        match self {
            SyncError::NoMatchingVersion => "no version on offer satisfies the declared intent",
            SyncError::PackageNotFound => "the registry does not know the package",
            SyncError::ConflictingImportMode => "exactly one import mode must be chosen",
            SyncError::MissingResolution => "no target version was resolved for the package",
        }
    }
}

impl PackageFailure {
    /// The sentence that tells a user of the failure: the name of the
    /// package, a colon and a blank, and the sentence for the kind of
    /// failure.
    pub fn message(&self) -> (text: String)
        ensures
            text@ == self.package@ + ": "@ + message_of(self.error),
    {
        let mut text = self.package.clone();
        text.append(": ");
        text.append(self.error.message());
        text
    }
}

} // verus!

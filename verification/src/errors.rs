use vstd::prelude::*;

verus! {

/// The failure kinds of one invocation. Every kind is fatal to the
/// invocation; none is retried.
#[derive(Clone, Copy, Debug, PartialEq, Eq, Structural)]
pub enum Error {
    /// The script (or a cached marker) could not be read or resolved.
    ReadError,
    /// A dependency declaration cannot be rendered into a manifest entry,
    /// because its version constraint is not a valid version requirement.
    ManifestError,
    /// Assembled source or manifest could not be persisted.
    WriteError,
    /// A child process (build tool or artifact) could not be started.
    SpawnError,
    /// The build tool ran and reported failure.
    BuildError,
}

impl Error {
    /// The human-readable description of this failure kind.
    pub open spec fn message_spec(self) -> Seq<char> {
        match self {
            Error::ReadError => "Unable to read the script"@,
            Error::ManifestError => "Invalid dependency declaration"@,
            Error::WriteError => "Unable to write to the script workspace"@,
            Error::SpawnError => "Unable to start a child process"@,
            Error::BuildError => "The script did not compile successfully"@,
        }
    }

    pub fn message(&self) -> (r: String)
        ensures
            r@ == self.message_spec(),
    {
        match self {
            Error::ReadError => "Unable to read the script".to_owned(),
            Error::ManifestError => "Invalid dependency declaration".to_owned(),
            Error::WriteError => "Unable to write to the script workspace".to_owned(),
            Error::SpawnError => "Unable to start a child process".to_owned(),
            Error::BuildError => "The script did not compile successfully".to_owned(),
        }
    }
}

} // verus!

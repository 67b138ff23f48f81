//! The errors a load can fail with, and the message each carries.

use vstd::prelude::*;

verus! {

/// Why loading a module failed.
#[derive(Debug)]
pub enum LoadError {
    /// The module file is missing, unreadable, or rejected by the platform's
    /// dynamic linker.
    OpenError(String),
    /// The module's toolchain or protocol tag differs from the host's; the
    /// module's entry point must never run in that case.
    VersionError(String),
    /// A loader name was registered twice, within one load or across loads.
    RegistrationError(String),
}

impl LoadError {
    /// The message carried by the error, whichever variant it is.
    pub open spec fn message_spec(&self) -> Seq<char> {
        match self {
            LoadError::OpenError(m) => m@,
            LoadError::VersionError(m) => m@,
            LoadError::RegistrationError(m) => m@,
        }
    }

    /// The human-readable description of the failure.
    pub fn message(&self) -> (r: &str)
        ensures
            r@ == self.message_spec(),
    {
        match self {
            LoadError::OpenError(m) => m.as_str(),
            LoadError::VersionError(m) => m.as_str(),
            LoadError::RegistrationError(m) => m.as_str(),
        }
    }
}

} // verus!

//! What can go wrong when registering, finding or removing a plugin.
use vstd::prelude::*;

verus! {

/// Every failure is recoverable and leaves the registry as it was.
#[derive(Debug, Clone, Copy, PartialEq, Eq, Structural)]
pub enum Error {
    /// The library file is missing, unreadable or not loadable here.
    LoadError,
    /// The library does not export the constructor.
    SymbolNotFound,
    /// The library was built for another host version.
    VersionMismatch,
    /// The constructor ran and produced no usable instance.
    ConstructionFailed,
    /// The name is held by a registered plugin.
    DuplicateName,
    /// No registered plugin answers to the identifier.
    NotFound,
}

impl Error {
    /// A short description for logs.
    pub fn message(&self) -> (r: &'static str)
        ensures
            r@ == self.spec_message(),
    {
        match self {
            Error::LoadError => "library could not be loaded",
            Error::SymbolNotFound => "constructor symbol not found",
            Error::VersionMismatch => "plugin targets another host version",
            Error::ConstructionFailed => "plugin construction failed",
            Error::DuplicateName => "plugin name already registered",
            Error::NotFound => "plugin not found",
        }
    }

    /// The text of each error.
    pub open spec fn spec_message(&self) -> Seq<char> {
        match self {
            Error::LoadError => "library could not be loaded"@,
            Error::SymbolNotFound => "constructor symbol not found"@,
            Error::VersionMismatch => "plugin targets another host version"@,
            Error::ConstructionFailed => "plugin construction failed"@,
            Error::DuplicateName => "plugin name already registered"@,
            Error::NotFound => "plugin not found"@,
        }
    }
}

} // verus!

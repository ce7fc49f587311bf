//! The failure taxonomy of the build pipeline. Every stage failure is fatal:
//! callers propagate these errors and the whole build aborts, so that no
//! partial catalog is ever produced.

use vstd::prelude::*;

verus! {

/// One failure of the pipeline, attributed to the stage kind that caused it.
#[derive(Debug, Clone)]
pub enum BuildError {
    /// A fetch failed or answered with a non-success status.
    Network(String),
    /// A required selector or field was missing from a page.
    Parse(String),
    /// A duplicate slug or name, or a missing required relation.
    Data(String),
    /// A file could not be read or written.
    Io(String),
    /// An image could not be decoded or converted.
    Conversion(String),
    /// A worker task crashed.
    Concurrency(String),
}

impl BuildError {
    /// The context text carried by the error.
    pub fn message(&self) -> (r: &str)
        ensures
            r@ == self.message_spec(),
    {
        match self {
            BuildError::Network(m) => m.as_str(),
            BuildError::Parse(m) => m.as_str(),
            BuildError::Data(m) => m.as_str(),
            BuildError::Io(m) => m.as_str(),
            BuildError::Conversion(m) => m.as_str(),
            BuildError::Concurrency(m) => m.as_str(),
        }
    }

    /// The context text carried by the error.
    pub open spec fn message_spec(&self) -> Seq<char> {
        match self {
            BuildError::Network(m) => m@,
            BuildError::Parse(m) => m@,
            BuildError::Data(m) => m@,
            BuildError::Io(m) => m@,
            BuildError::Conversion(m) => m@,
            BuildError::Concurrency(m) => m@,
        }
    }
}

} // verus!

//! The failures that the save browser shows.

use vstd::prelude::*;

verus! {

#[verifier::external_type_specification]
#[verifier::external_body]
pub struct ExPathBuf(std::path::PathBuf);

/// A failure of the save browser.
#[derive(Debug, PartialEq, Eq)]
pub enum Error {
    /// The save list could not be used.
    Global(String),
    /// A file is missing or a slot could not be read.
    Io(String),
    /// A codec failed.
    Lib(crate::error::Error),
    /// An image could not be decoded.
    Image(String),
    /// A sheet has no sprite of the number that was asked for.
    SpriteIndex(String),
    /// The directory does not exist.
    MissingDirectory(std::path::PathBuf),
}

impl Error {
    /// A failure of the save list, with its message.
    pub fn global_error(s: String) -> (e: Self)
        ensures
            e matches Error::Global(message) && message@ == s@,
    {
        Self::Global(s)
    }

    /// A failure to read, with its message.
    pub fn io_error(s: String) -> (e: Self)
        ensures
            e matches Error::Io(message) && message@ == s@,
    {
        Self::Io(s)
    }
}

impl From<crate::error::Error> for Error {
    /// A failure of a codec, as a failure of the browser.
    fn from(value: crate::error::Error) -> (e: Self) {
        Self::Lib(value)
    }
}

impl vstd::std_specs::convert::FromSpecImpl<crate::error::Error> for Error {
    open spec fn obeys_from_spec() -> bool {
        true
    }

    open spec fn from_spec(value: crate::error::Error) -> Self {
        Error::Lib(value)
    }
}

} // verus!

//! The error that geometry operations report: a fixed message.
use vstd::prelude::*;

verus! {

/// A failed geometry operation, described by a fixed message.
#[derive(Clone, Copy, Debug, PartialEq, Eq)]
pub struct Error(pub &'static str);

impl Error {
    /// The message of the error, as it is displayed.
    pub fn message(&self) -> (message: &'static str)
        ensures
            message == self.0,
    {
        self.0
    }
}

impl From<&'static str> for Error {
    fn from(value: &'static str) -> (error: Self) {
        Error(value)
    }
}

impl vstd::std_specs::convert::FromSpecImpl<&'static str> for Error {
    open spec fn obeys_from_spec() -> bool {
        true
    }

    open spec fn from_spec(value: &'static str) -> Error {
        Error(value)
    }
}

} // verus!

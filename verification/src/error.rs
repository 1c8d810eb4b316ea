//! Errors surfaced by the notification core.

use vstd::prelude::*;

verus! {

/// Error cases of the core. Everything else in the core is total.
#[derive(Clone, Copy, Debug, PartialEq, Eq, Structural)]
pub enum Error {
    /// A query needed an unread notification and none was present.
    EmptyState,
    /// A malformed origin name.
    InvalidOrigin,
    /// A malformed geometry string.
    InvalidGeometry,
}

impl Error {
    /// A short description of the error.
    pub fn message(&self) -> (r: &'static str)
        ensures
            *self == Error::EmptyState ==> r@ == "no unread notification"@,
            *self == Error::InvalidOrigin ==> r@ == "invalid origin"@,
            *self == Error::InvalidGeometry ==> r@ == "invalid geometry"@,
    {
        match self {
            Error::EmptyState => "no unread notification",
            Error::InvalidOrigin => "invalid origin",
            Error::InvalidGeometry => "invalid geometry",
        }
    }
}

} // verus!

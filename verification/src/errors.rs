//! The error type of the library.
use vstd::prelude::*;

verus! {

/// What went wrong in an operation of the library.
#[derive(Debug)]
pub enum SkateError {
    /// An error described by a message.
    String(String),
    /// Several errors at once.
    Multi(Vec<SkateError>),
    /// An error that carries no description.
    Unknown,
}

impl SkateError {
    /// An error with the given message.
    pub fn msg(s: &str) -> (res: SkateError)
        ensures
            res matches SkateError::String(m) && m@ == s@,
    {
        SkateError::String(crate::text::owned(s))
    }

    /// The message carried by the error (the text that `Display` would show after `Error: `).
    pub open spec fn message(self) -> Seq<char> {
        match self {
            SkateError::String(m) => m@,
            _ => Seq::empty(),
        }
    }
}

impl From<String> for SkateError {
    fn from(value: String) -> (res: SkateError) {
        SkateError::String(value)
    }
}

impl vstd::std_specs::convert::FromSpecImpl<String> for SkateError {
    open spec fn obeys_from_spec() -> bool {
        true
    }

    open spec fn from_spec(v: String) -> SkateError {
        SkateError::String(v)
    }
}

} // verus!

//! What can go wrong.
use vstd::prelude::*;

verus! {

/// Why a text could not be formatted.
#[derive(Debug, Clone)]
pub enum FormatError {
    /// The text is not valid TOML; the message says where and why.
    Parse(String),
}

impl FormatError {
    /// The message for the user.
    pub fn message(&self) -> (text: String)
        ensures
            self matches FormatError::Parse(m) && text@ == m@,
    {
        match self {
            FormatError::Parse(m) => m.clone(),
        }
    }
}

} // verus!

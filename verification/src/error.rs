//! The ways a conversion can fail.

use vstd::prelude::*;

verus! {

/// Why a document could not be converted.
#[derive(Debug, Clone, Copy, PartialEq, Eq, Structural)]
pub enum ConvertError {
    /// The input is longer than the parser's 32-bit positions can address.
    InvalidLength,
}

impl ConvertError {
    /// The words of the message for this error.
    pub open spec fn message_text(self) -> Seq<char> {
        match self {
            ConvertError::InvalidLength => "The input string length is too large to fit in a `u32`"@,
        }
    }

    /// A message for the user.
    pub fn message(&self) -> (r: String)
        ensures
            r@ == self.message_text(),
    {
        match self {
            ConvertError::InvalidLength => {
                "The input string length is too large to fit in a `u32`".to_owned()
            },
        }
    }
}

} // verus!

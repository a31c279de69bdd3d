//! The error value returned by every validator and preprocessor.

use vstd::prelude::*;
use vstd::string::*;

verus! {

/// An error that occurs during preprocessing.  It carries the name of the
/// field that failed validation and the message produced by the validator.
#[derive(Debug, Clone, PartialEq, Eq)]
pub struct Error {
    /// The field that failed validation.  Empty when the error is not tied
    /// to a specific field; set with [`Error::set_field`].
    pub field: String,
    /// The message produced by the validator.
    pub message: String,
}

impl Error {
    /// Creates a new error with the given message and an empty field name.
    pub fn new(message: &str) -> (e: Error)
        ensures
            e.field@ == Seq::<char>::empty(),
            e.message@ == message@,
    {
        Error { field: String::new(), message: String::from_str(message) }
    }

    /// Sets the field which failed validation.
    pub fn set_field(self, field: &str) -> (e: Error)
        ensures
            e.field@ == field@,
            e.message@ == self.message@,
    {
        Error { field: String::from_str(field), message: self.message }
    }

    /// Renders the error as text, in place of a `Display` implementation.
    pub fn to_text(&self) -> (s: String)
        ensures
            s@ == "error preprocessing field `"@ + self.field@ + "`: "@ + self.message@,
    {
        let mut s = String::from_str("error preprocessing field `");
        s.append(self.field.as_str());
        s.append("`: ");
        s.append(self.message.as_str());
        s
    }
}

} // verus!

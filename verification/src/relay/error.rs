//! Relay error types.

use crate::io_error::io_error_text;
use vstd::prelude::*;

verus! {

/// Relay-specific errors.
#[derive(Debug)]
pub enum RelayError {
    /// Configuration error.
    Config(String),
    /// I/O error.
    Io(std::io::Error),
}

/// Result type for relay operations.
pub type RelayResult<T> = Result<T, RelayError>;

impl From<std::io::Error> for RelayError {
    fn from(e: std::io::Error) -> (r: RelayError) {
        RelayError::Io(e)
    }
}

impl vstd::std_specs::convert::FromSpecImpl<std::io::Error> for RelayError {
    open spec fn obeys_from_spec() -> bool {
        true
    }

    open spec fn from_spec(e: std::io::Error) -> RelayError {
        RelayError::Io(e)
    }
}

impl RelayError {
    /// The message for people, where the system says `said` of an I/O error.
    pub open spec fn text(self, said: Seq<char>) -> Seq<char> {
        match self {
            RelayError::Config(m) => "configuration error: "@ + m@,
            RelayError::Io(_) => "I/O error: "@ + said,
        }
    }

    /// The message for people, where the system says `said` of an I/O error.
    pub fn message_with(&self, said: &str) -> (s: String)
        ensures
            s@ == self.text(said@),
    {
        match self {
            RelayError::Config(m) => {
                let mut s = String::from_str("configuration error: ");
                s.append(m.as_str());
                s
            },
            RelayError::Io(_) => {
                let mut s = String::from_str("I/O error: ");
                s.append(said);
                s
            },
        }
    }

    /// The message for people. Of an I/O error it names the kind of error and then what the
    /// system said.
    pub fn message(&self) -> (s: String)
        ensures
            exists|said: Seq<char>| s@ == #[trigger] self.text(said),
    {
        let said = match self {
            RelayError::Io(e) => io_error_text(e),
            RelayError::Config(_) => String::new(),
        };
        self.message_with(said.as_str())
    }
}

} // verus!

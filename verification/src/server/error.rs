//! Server error types.

use crate::io_error::io_error_text;
use vstd::prelude::*;

verus! {

/// Server errors.
#[derive(Debug)]
pub enum ServerError {
    /// Configuration error.
    Config(String),
    /// IO error.
    Io(std::io::Error),
    /// Protocol error.
    Protocol(String),
    /// Cryptographic error.
    Crypto(String),
    /// TUN device error.
    Tun(String),
    /// Session error.
    Session(String),
    /// IP allocation error.
    IpAllocation(String),
    /// NAT error.
    Nat(String),
    /// Internal server error.
    Internal(String),
    /// Server is shutting down.
    Shutdown,
}

/// Result type for server operations.
pub type ServerResult<T> = Result<T, ServerError>;

impl From<std::io::Error> for ServerError {
    fn from(e: std::io::Error) -> (r: ServerError) {
        ServerError::Io(e)
    }
}

impl vstd::std_specs::convert::FromSpecImpl<std::io::Error> for ServerError {
    open spec fn obeys_from_spec() -> bool {
        true
    }

    open spec fn from_spec(e: std::io::Error) -> ServerError {
        ServerError::Io(e)
    }
}

fn prefixed(prefix: &str, text: &str) -> (s: String)
    ensures
        s@ == prefix@ + text@,
{
    let mut s = String::from_str(prefix);
    s.append(text);
    s
}

impl ServerError {
    /// The message for people, where the system says `said` of an I/O error.
    pub open spec fn text(self, said: Seq<char>) -> Seq<char> {
        match self {
            ServerError::Config(m) => "configuration error: "@ + m@,
            ServerError::Io(_) => "io error: "@ + said,
            ServerError::Protocol(m) => "protocol error: "@ + m@,
            ServerError::Crypto(m) => "crypto error: "@ + m@,
            ServerError::Tun(m) => "tun error: "@ + m@,
            ServerError::Session(m) => "session error: "@ + m@,
            ServerError::IpAllocation(m) => "ip allocation error: "@ + m@,
            ServerError::Nat(m) => "nat error: "@ + m@,
            ServerError::Internal(m) => "internal error: "@ + m@,
            ServerError::Shutdown => "server is shutting down"@,
        }
    }

    /// The message for people, where the system says `said` of an I/O error.
    pub fn message_with(&self, said: &str) -> (s: String)
        ensures
            s@ == self.text(said@),
    {
        match self {
            ServerError::Config(m) => prefixed("configuration error: ", m.as_str()),
            ServerError::Io(_) => prefixed("io error: ", said),
            ServerError::Protocol(m) => prefixed("protocol error: ", m.as_str()),
            ServerError::Crypto(m) => prefixed("crypto error: ", m.as_str()),
            ServerError::Tun(m) => prefixed("tun error: ", m.as_str()),
            ServerError::Session(m) => prefixed("session error: ", m.as_str()),
            ServerError::IpAllocation(m) => prefixed("ip allocation error: ", m.as_str()),
            ServerError::Nat(m) => prefixed("nat error: ", m.as_str()),
            ServerError::Internal(m) => prefixed("internal error: ", m.as_str()),
            ServerError::Shutdown => String::from_str("server is shutting down"),
        }
    }

    /// The message for people. Of an I/O error it names the kind of error and then what the
    /// system said.
    pub fn message(&self) -> (s: String)
        ensures
            exists|said: Seq<char>| s@ == #[trigger] self.text(said),
    {
        let said = match self {
            ServerError::Io(e) => io_error_text(e),
            _ => String::new(),
        };
        self.message_with(said.as_str())
    }
}

} // verus!

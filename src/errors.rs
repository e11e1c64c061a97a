//! Errors of the library.
use vstd::prelude::*;

verus! {

/// What went wrong, with a description.
#[derive(Debug)]
pub enum KaseederError {
    Config(String),
    Network(String),
    Dns(String),
    Grpc(String),
    Database(String),
    Io(String),
    Serialization(String),
    Validation(String),
    Service(String),
    AddressManager(String),
    Crawler(String),
    /// A configuration field holds a value outside what it allows.
    InvalidConfigValue { field: String, value: String, expected: String },
    FileNotFound(String),
    InvalidAddress(String),
    ConnectionRefused(String),
    NetworkTimeout(String),
    ProtocolVersionMismatch(String),
    Protocol(String),
}

/// Result of the library's fallible operations.
pub type Result<T> = core::result::Result<T, KaseederError>;

/// A `String` holding the characters of `s`.
pub fn text(s: &str) -> (r: String)
    ensures
        r@ == s@,
{
    String::from_str(s)
}

} // verus!

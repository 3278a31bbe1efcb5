//! Shared error type.

use vstd::prelude::*;

verus! {

/// Errors raised across Kraftverk.
#[derive(Debug)]
pub enum Error {
    Message(String),
    Unsupported(String),
    UnsupportedHardware(String),
    InvalidConfig(String),
    NotFound(String),
    Platform(String),
    Benchmark(String),
    Storage(String),
    RollbackRequired(String),
    Interrupted(String),
    Statistics(String),
    /// A serialization failure, carried as the serializer's message.
    Serde(String),
    /// An operating-system I/O failure, carried as its message.
    Io(String),
}

/// Result alias used across the library.
pub type Result<T> = core::result::Result<T, Error>;

impl Error {
    pub fn msg(s: &str) -> (e: Error)
        ensures
            e matches Error::Message(m) && m@ == s@,
    {
        Error::Message(String::from_str(s))
    }

    pub fn unsupported(s: &str) -> (e: Error)
        ensures
            e matches Error::Unsupported(m) && m@ == s@,
    {
        Error::Unsupported(String::from_str(s))
    }

    pub fn unsupported_hardware(s: &str) -> (e: Error)
        ensures
            e matches Error::UnsupportedHardware(m) && m@ == s@,
    {
        Error::UnsupportedHardware(String::from_str(s))
    }
}

} // verus!

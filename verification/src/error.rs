//! What can go wrong.

use vstd::prelude::*;

verus! {

/// An error of the agent.
#[derive(Debug, Clone)]
pub enum Error {
    /// The replicated store could not be read or written.
    Dcs(String),
    /// PostgreSQL, or one of its tools, failed.
    Postgres(String),
    /// The configuration is not usable.
    Config(String),
    /// The leader lock could not be taken.
    LockFailed,
    /// Something took too long.
    Timeout(String),
    /// Reading or writing failed.
    Io(String),
}

/// The text of an error.
pub open spec fn error_text(e: Error) -> Seq<char> {
    match e {
        Error::Dcs(m) => "DCS error: "@ + m@,
        Error::Postgres(m) => "PostgreSQL error: "@ + m@,
        Error::Config(m) => "Configuration error: "@ + m@,
        Error::LockFailed => "Lock acquisition failed"@,
        Error::Timeout(m) => "Timeout: "@ + m@,
        Error::Io(m) => "IO error: "@ + m@,
    }
}

fn joined(head: &str, tail: &String) -> (r: String)
    ensures
        r@ == head@ + tail@,
{
    let mut r = head.to_string();
    r.append(tail.as_str());
    r
}

impl Error {
    /// The text of the error.
    pub fn message(&self) -> (r: String)
        ensures
            r@ == error_text(*self),
    {
        match self {
            Error::Dcs(m) => joined("DCS error: ", m),
            Error::Postgres(m) => joined("PostgreSQL error: ", m),
            Error::Config(m) => joined("Configuration error: ", m),
            Error::LockFailed => "Lock acquisition failed".to_string(),
            Error::Timeout(m) => joined("Timeout: ", m),
            Error::Io(m) => joined("IO error: ", m),
        }
    }
}

} // verus!

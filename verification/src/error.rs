//! The library's error type: invalid usage (exit code 2) or a runtime
//! failure (exit code 1).

use vstd::prelude::*;

verus! {

/// Marks an error as invalid usage.
#[derive(Debug, Clone)]
pub struct UsageError(pub String);

/// A failure of a `gh qwt` operation.
#[derive(Debug, Clone)]
pub enum Error {
    /// Malformed arguments or specs; the process exits with code 2.
    Usage(UsageError),
    /// Any other failure; the process exits with code 1.
    Runtime(String),
}

impl Error {
    /// Whether this error reports invalid usage.
    pub open spec fn is_usage(&self) -> bool {
        self is Usage
    }

    /// The message carried by this error.
    pub open spec fn text(&self) -> Seq<char> {
        match self {
            Error::Usage(u) => u.0@,
            Error::Runtime(m) => m@,
        }
    }

    /// The message carried by this error.
    pub fn message(&self) -> (r: String)
        ensures
            r@ == self.text(),
    {
        match self {
            Error::Usage(u) => u.0.clone(),
            Error::Runtime(m) => m.clone(),
        }
    }

    /// The process exit code this error maps to: `2` for invalid usage, `1` otherwise.
    pub fn exit_code(&self) -> (c: i32)
        ensures
            c == (if self.is_usage() {
                2i32
            } else {
                1i32
            }),
    {
        match self {
            Error::Usage(_) => 2,
            Error::Runtime(_) => 1,
        }
    }
}

/// Build an invalid-usage error from a message.
pub fn usage(msg: &str) -> (e: Error)
    ensures
        e.is_usage(),
        e.text() == msg@,
{
    Error::Usage(UsageError(msg.to_owned()))
}

/// Build a runtime error from a message.
pub fn runtime(msg: &str) -> (e: Error)
    ensures
        !e.is_usage(),
        e.text() == msg@,
{
    Error::Runtime(msg.to_owned())
}

/// Turn an existing error into an invalid-usage error, keeping its message.
pub fn usage_from(err: Error) -> (e: Error)
    ensures
        e.is_usage(),
        e.text() == err.text(),
{
    let msg = err.message();
    Error::Usage(UsageError(msg))
}

} // verus!

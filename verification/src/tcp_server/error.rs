//! Top-level error type for the composition root.

use vstd::prelude::*;

use crate::env::ConfigError;

verus! {

/// Errors that can stop the server from starting or running.
#[derive(Debug)]
pub enum ServerError {
    Config(ConfigError),
    /// An I/O failure, described.
    Io(String),
}

impl ServerError {
    /// The text of the error.
    pub open spec fn text(self) -> Seq<char> {
        match self {
            ServerError::Config(e) => "invalid value for "@ + e.variable(),
            ServerError::Io(cause) => "i/o error: "@ + cause@,
        }
    }

    /// Describes the error.
    pub fn message(&self) -> (s: String)
        ensures
            s@ == self.text(),
    {
        match self {
            ServerError::Config(e) => e.message(),
            ServerError::Io(cause) => {
                let mut s = "i/o error: ".to_owned();
                s.append(cause.as_str());
                s
            },
        }
    }
}

} // verus!

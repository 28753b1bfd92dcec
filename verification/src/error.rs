//! Top-level errors of the command entry point.

use vstd::prelude::*;

use crate::cli::{error_message, error_outcome, CliError};
use crate::text::push_str;

verus! {

/// Top-level errors returned by the command entry point.
#[derive(Debug, Clone, PartialEq, Eq)]
pub enum Error {
    /// The caller provided an invalid command line.
    Cli(CliError),
    /// The command is known but not available in this build.
    Unsupported {
        /// The accepted top-level command name.
        command: &'static str,
    },
}

impl Error {
    /// The message shown for this error: the command-line error's own
    /// message, or a note that the command is not available.
    pub fn message(&self) -> (r: String)
        ensures
            r@ == match self {
                Error::Cli(e) => error_message(error_outcome(*e)),
                Error::Unsupported { command } => "command `"@ + command@
                    + "` is recognized but not implemented"@,
            },
    {
        match self {
            Error::Cli(e) => e.message(),
            Error::Unsupported { command } => {
                let mut out = String::new();
                push_str(&mut out, "command `");
                push_str(&mut out, command);
                push_str(&mut out, "` is recognized but not implemented");
                out
            },
        }
    }
}

impl From<CliError> for Error {
    fn from(value: CliError) -> (r: Error) {
        Error::Cli(value)
    }
}

impl vstd::std_specs::convert::FromSpecImpl<CliError> for Error {
    open spec fn obeys_from_spec() -> bool {
        true
    }

    open spec fn from_spec(v: CliError) -> Error {
        Error::Cli(v)
    }
}

} // verus!

//! The failures that the library reports.
use vstd::prelude::*;

verus! {

/// Why an invocation failed.
#[derive(Debug, Clone, Copy, PartialEq, Eq, Structural)]
pub enum Error {
    /// The runtime directory's value is not valid Unicode.
    BadRuntimeDirectory,
    /// The command ran and exited with this nonzero status.
    CommandFailedStatusCode(u8),
    /// The command could not be launched.
    CommandRunFailed,
    /// The request is not valid UTF-8.
    InvalidArgs,
    /// The connection ended before the request's terminator came.
    UnterminatedRequest,
    /// The runtime directory is not configured.
    MissingRuntimeDirectory,
    /// No listening handle was handed over.
    MissingSocket,
    /// No subcommand was given.
    MissingSubcommand,
    /// The client was given no arguments to send.
    NoArgs,
    /// More than one listening handle was handed over.
    TooManySockets,
    /// Neither a socket path nor a network address is configured.
    UnknownServerLocation,
    /// The subcommand is neither `client` nor `server`.
    UnknownSubcommand,
    /// The server was given more than one builder executable.
    InvalidBuilderExe,
    /// The server was given no builder executable.
    MissingBuilderExe,
}

} // verus!

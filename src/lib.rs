//! Delegates a command from a restricted sandbox to a cooperating server
//! outside it, and brings the command's results back.
pub mod cli;
pub mod error;
pub mod outcome;
pub mod protocol;
pub mod status;
pub mod summary;
pub mod transport;

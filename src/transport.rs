//! How a client reaches its server, and how a server takes its one listening handle.
use vstd::prelude::*;

use crate::error::Error;

verus! {

/// Where the client connects.
#[derive(Debug, PartialEq, Eq)]
pub enum Transport {
    /// A filesystem-domain socket at this path.
    UnixSocket(String),
    /// A network socket at this address.
    Network(String),
}

/// The transport for the configured socket path and network address: the
/// path wins where both are set.
pub fn select_transport(socket_path: Option<String>, address: Option<String>) -> (r: Result<Transport, Error>)
    ensures
        r == (match (socket_path, address) {
            (Some(p), _) => Ok(Transport::UnixSocket(p)),
            (None, Some(a)) => Ok(Transport::Network(a)),
            (None, None) => Err(Error::UnknownServerLocation),
        }),
{
    match socket_path {
        Some(p) => Ok(Transport::UnixSocket(p)),
        None => match address {
            Some(a) => Ok(Transport::Network(a)),
            None => Err(Error::UnknownServerLocation),
        },
    }
}

/// The one listening handle among those handed over: none is
/// `MissingSocket`, more than one is `TooManySockets`.
pub fn single_socket(handles: &Vec<i32>) -> (r: Result<i32, Error>)
    ensures
        handles@.len() == 0 ==> r == Err::<i32, Error>(Error::MissingSocket),
        handles@.len() > 1 ==> r == Err::<i32, Error>(Error::TooManySockets),
        handles@.len() == 1 ==> r == Ok::<i32, Error>(handles@[0]),
{
    if handles.len() == 0 {
        Err(Error::MissingSocket)
    } else if handles.len() > 1 {
        Err(Error::TooManySockets)
    } else {
        Ok(handles[0])
    }
}

} // verus!

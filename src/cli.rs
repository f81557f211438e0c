//! What a process is asked to do, and the configuration it is given.
use vstd::prelude::*;

use crate::error::Error;
use crate::protocol::{encode_request, request_bytes, string_views};

verus! {

/// The side of the exchange that a process plays.
#[derive(Debug, Clone, Copy, PartialEq, Eq, Structural)]
pub enum Subcommand {
    Client,
    Server,
}

/// The subcommand that a word names, if any.
pub open spec fn subcommand_named(word: Seq<char>) -> Option<Subcommand> {
    if word == "client"@ {
        Some(Subcommand::Client)
    } else if word == "server"@ {
        Some(Subcommand::Server)
    } else {
        None
    }
}

impl Subcommand {
    /// The subcommand that a word names, or `UnknownSubcommand`.
    pub fn from_name(word: &String) -> (r: Result<Subcommand, Error>)
        ensures
            r == (match subcommand_named(word@) {
                Some(c) => Ok(c),
                None => Err(Error::UnknownSubcommand),
            }),
    {
        let client = "client".to_owned();
        let server = "server".to_owned();
        if *word == client {
            Ok(Subcommand::Client)
        } else if *word == server {
            Ok(Subcommand::Server)
        } else {
            Err(Error::UnknownSubcommand)
        }
    }

    /// The subcommand that the first command-line word names; a missing word
    /// is `MissingSubcommand`.
    pub fn from_first(word: Option<&String>) -> (r: Result<Subcommand, Error>)
        ensures
            r == (match word {
                None => Err(Error::MissingSubcommand),
                Some(w) => match subcommand_named(w@) {
                    Some(c) => Ok(c),
                    None => Err(Error::UnknownSubcommand),
                },
            }),
    {
        match word {
            None => Err(Error::MissingSubcommand),
            Some(w) => Subcommand::from_name(w),
        }
    }
}

impl std::str::FromStr for Subcommand {
    type Err = Error;

    fn from_str(s: &str) -> (r: Result<Subcommand, Error>)
        ensures
            r == (match subcommand_named(s@) {
                Some(c) => Ok(c),
                None => Err(Error::UnknownSubcommand),
            }),
    {
        Subcommand::from_name(&s.to_owned())
    }
}

/// The server's one builder executable, from its command-line words.
pub fn builder_exe(command: Vec<String>) -> (r: Result<String, Error>)
    ensures
        command@.len() == 0 ==> r == Err::<String, Error>(Error::MissingBuilderExe),
        command@.len() > 1 ==> r == Err::<String, Error>(Error::InvalidBuilderExe),
        command@.len() == 1 ==> r == Ok::<String, Error>(command@[0]),
{
    let mut command = command;
    if command.len() > 1 {
        return Err(Error::InvalidBuilderExe);
    }
    match command.pop() {
        Some(exe) => Ok(exe),
        None => Err(Error::MissingBuilderExe),
    }
}

/// How an environment variable was found.
#[derive(Debug, PartialEq, Eq)]
pub enum EnvValue {
    Absent,
    NotUnicode,
    Present(String),
}

/// The server's runtime directory, from the variable that configures it.
pub fn runtime_directory(value: EnvValue) -> (r: Result<String, Error>)
    ensures
        r == (match value {
            EnvValue::Absent => Err(Error::MissingRuntimeDirectory),
            EnvValue::NotUnicode => Err(Error::BadRuntimeDirectory),
            EnvValue::Present(s) => Ok(s),
        }),
{
    match value {
        EnvValue::Absent => Err(Error::MissingRuntimeDirectory),
        EnvValue::NotUnicode => Err(Error::BadRuntimeDirectory),
        EnvValue::Present(s) => Ok(s),
    }
}

/// The bytes that a client sends for its arguments; a client needs at least one.
pub fn client_request(args: &Vec<String>) -> (r: Result<Vec<u8>, Error>)
    ensures
        args@.len() == 0 ==> r == Err::<Vec<u8>, Error>(Error::NoArgs),
        args@.len() > 0 ==> (r matches Ok(bytes) && bytes@ == request_bytes(string_views(args@))),
{
    if args.len() == 0 {
        Err(Error::NoArgs)
    } else {
        Ok(encode_request(args))
    }
}

} // verus!

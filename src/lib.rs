use vstd::prelude::*;

pub mod files;
pub mod headers;
pub mod request;
pub mod response;
pub mod serve;
pub mod text;

pub use files::{ContentHeaders, HttpContent};
pub use headers::Headers;
pub use request::Request;
pub use response::{HttpStatus, Response};

verus! {

/// The server's configuration: the served folder, the port and the number of
/// worker threads.
pub struct Arguments {
    pub directory: String,
    pub port: u32,
    pub threads: usize,
}

/// The kinds of log message.
#[derive(Clone, Copy, Debug, PartialEq, Eq, Structural)]
pub enum LogLevel {
    Info,
    ClientError,
    ServerError,
}

/// The tag and the terminal colour of each kind of log message.
pub open spec fn level_tag(level: LogLevel) -> (Seq<char>, Seq<char>) {
    match level {
        LogLevel::Info => ("INFO"@, "\x1B[33;94m"@),
        LogLevel::ClientError => ("CLNT"@, "\x1B[33;93m"@),
        LogLevel::ServerError => ("SERV"@, "\x1B[33;91m"@),
    }
}

impl LogLevel {
    /// The tag and the terminal colour that a message of this kind is printed with.
    pub fn tag(&self) -> (r: (&'static str, &'static str))
        ensures
            (r.0@, r.1@) == level_tag(*self),
    {
        match self {
            LogLevel::Info => ("INFO", "\x1B[33;94m"),
            LogLevel::ClientError => ("CLNT", "\x1B[33;93m"),
            LogLevel::ServerError => ("SERV", "\x1B[33;91m"),
        }
    }
}

} // verus!

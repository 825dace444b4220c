use vstd::prelude::*;
use crate::key::ParseError;

verus! {

/// Errors seen by a client of the server.
#[derive(Debug)]
pub enum Error {
    /// The connection to the server could not be made.
    CantConnectToTheServer,
    /// The transport failed.
    Io { mes: String },
    /// The peer sent bytes that are not UTF-8 text.
    InvalidResponseEncoding,
    /// A request could not be framed.
    InvalidRequest { mes: String },
    /// A key could not be parsed.
    InvalidKey(ParseError),
    /// The server answered with an error message.
    Server { mes: String },
    /// The server answered with something other than what the request calls for.
    UnexpectedResponse { response: String },
    /// A record's resource name is unusable.
    InvalidResource { mes: String },
}

} // verus!

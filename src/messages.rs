use vstd::prelude::*;
use crate::callbacks::Error;
use crate::key::ParseError;
use crate::record::ParseRecordError;
use crate::request_dispatcher::DispatchingError;
use crate::storage;

verus! {

/// The text of a storage failure.
pub open spec fn storage_message(e: storage::Error) -> Seq<char> {
    match e {
        storage::Error::UserAlreadyExists(n) => "user "@ + n@ + " already exists"@,
        storage::Error::UserDoesNotExist(n) => "user "@ + n@ + " doesn't exist"@,
        storage::Error::RecordDoesNotExist(n) => "record "@ + n@ + " doesn't exist"@,
        storage::Error::UnsupportedActionForMultiSession => "can't perform action cause of others active sessions"@,
        storage::Error::TooManySessions => "too many active sessions"@,
    }
}

/// The text of a key parsing failure.
pub open spec fn key_message(e: ParseError) -> Seq<char> {
    match e {
        ParseError::InvalidFormat => "invalid format"@,
        ParseError::ParseBigInt => "error parsing big int"@,
    }
}

/// The text of a refused command.
pub open spec fn callback_message(e: Error) -> Seq<char> {
    match e {
        Error::UnacceptableRequestAtThisState => "unacceptable request at this state"@,
        Error::EmptyUsername => "empty username"@,
        Error::InvalidUsername(n) => "invalid username: "@ + n@,
        Error::EmptyKey => "empty key"@,
        Error::InvalidKey(k) => "invalid key: `"@ + key_message(k) + "`"@,
        Error::EmptyConfirmationString => "empty confirmation string"@,
        Error::InvalidConfirmationString => "invalid confirmation string"@,
        Error::EmptyResourceName => "empty resource name"@,
        Error::InvalidResourceName => "invalid resource name"@,
        Error::EmptyRecordContent => "empty record content"@,
        Error::InvalidRecordFormat(_) => "invalid record format"@,
        Error::Storage(s) => "storage error: "@ + storage_message(s),
    }
}

/// The text of a request that was not dispatched, or whose command refused it.
pub open spec fn dispatching_message(e: DispatchingError) -> Seq<char> {
    match e {
        DispatchingError::NoCommandProvided => "command wasn't provided"@,
        DispatchingError::UndefinedCommand(n) => "undefined command `"@ + n@ + "`"@,
        DispatchingError::Callback(c) => callback_message(c),
    }
}

fn text(s: &str) -> (r: String)
    ensures
        r@ == s@,
{
    String::from_str(s)
}

fn prefixed(before: &str, rest: &str) -> (r: String)
    ensures
        r@ == before@ + rest@,
{
    let mut r = String::from_str(before);
    r.append(rest);
    r
}

fn wrapped(before: &str, middle: &str, after: &str) -> (r: String)
    ensures
        r@ == before@ + middle@ + after@,
{
    let mut r = String::from_str(before);
    r.append(middle);
    r.append(after);
    r
}

impl storage::Error {
    /// Human-readable text of the failure.
    pub fn message(&self) -> (r: String)
        ensures
            r@ == storage_message(*self),
    {
        match self {
            storage::Error::UserAlreadyExists(n) => wrapped("user ", n.as_str(), " already exists"),
            storage::Error::UserDoesNotExist(n) => wrapped("user ", n.as_str(), " doesn't exist"),
            storage::Error::RecordDoesNotExist(n) => wrapped("record ", n.as_str(), " doesn't exist"),
            storage::Error::UnsupportedActionForMultiSession => text("can't perform action cause of others active sessions"),
            storage::Error::TooManySessions => text("too many active sessions"),
        }
    }
}

impl ParseError {
    /// Human-readable text of the failure.
    pub fn message(&self) -> (r: String)
        ensures
            r@ == key_message(*self),
    {
        match self {
            ParseError::InvalidFormat => text("invalid format"),
            ParseError::ParseBigInt => text("error parsing big int"),
        }
    }
}

impl ParseRecordError {
    /// Human-readable text of the failure.
    pub fn message(&self) -> (r: String)
        ensures
            r@ == "empty string"@,
    {
        text("empty string")
    }
}

impl Error {
    /// Human-readable text of the refusal.
    pub fn message(&self) -> (r: String)
        ensures
            r@ == callback_message(*self),
    {
        match self {
            Error::UnacceptableRequestAtThisState => text("unacceptable request at this state"),
            Error::EmptyUsername => text("empty username"),
            Error::InvalidUsername(n) => prefixed("invalid username: ", n.as_str()),
            Error::EmptyKey => text("empty key"),
            Error::InvalidKey(k) => {
                let m = k.message();
                wrapped("invalid key: `", m.as_str(), "`")
            },
            Error::EmptyConfirmationString => text("empty confirmation string"),
            Error::InvalidConfirmationString => text("invalid confirmation string"),
            Error::EmptyResourceName => text("empty resource name"),
            Error::InvalidResourceName => text("invalid resource name"),
            Error::EmptyRecordContent => text("empty record content"),
            Error::InvalidRecordFormat(_) => text("invalid record format"),
            Error::Storage(s) => {
                let m = s.message();
                prefixed("storage error: ", m.as_str())
            },
        }
    }
}

impl DispatchingError {
    /// Human-readable text of the failure.
    pub fn message(&self) -> (r: String)
        ensures
            r@ == dispatching_message(*self),
    {
        match self {
            DispatchingError::NoCommandProvided => text("command wasn't provided"),
            DispatchingError::UndefinedCommand(n) => wrapped("undefined command `", n.as_str(), "`"),
            DispatchingError::Callback(c) => c.message(),
        }
    }
}

} // verus!

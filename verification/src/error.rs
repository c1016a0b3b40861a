//! Errors reported by the client.

use vstd::prelude::*;

verus! {

/// An I/O error of the standard library, carried through unread.
#[verifier::external_type_specification]
#[verifier::external_body]
pub struct ExIoError(std::io::Error);

/// The class of an error that the client itself raises.
#[derive(Clone, Copy, Debug, PartialEq, Eq, Structural)]
pub enum ErrorKind {
    ConnectionReset,
    InvalidInput,
    Other,
    TimedOut,
    UnexpectedEof,
}

/// What can go wrong in the client.
#[derive(Debug)]
pub enum Error {
    /// The server sent bytes that are not a well-formed operation.
    Parse,
    /// The server closed the connection between two operations.
    SocketClosed,
    /// The first operation of the server was not an INFO.
    InfoNotFound,
    /// The message did not come with a way to answer it.
    NoReplySubject,
    /// The operation does not fit into the buffer that stands in for the connection.
    BufferFull,
    /// No further message can arrive, because the connection is gone.
    ConnectionReset,
    /// No message arrived in the allotted time.
    TimedOut,
    /// The connection or a decoder failed.
    Io(std::io::Error),
}

impl Error {
    /// The class of an error, or nothing for an error that was carried through.
    pub open spec fn spec_kind(&self) -> Option<ErrorKind> {
        match self {
            Error::Parse => Some(ErrorKind::InvalidInput),
            Error::SocketClosed => Some(ErrorKind::UnexpectedEof),
            Error::InfoNotFound => Some(ErrorKind::Other),
            Error::NoReplySubject => Some(ErrorKind::InvalidInput),
            Error::BufferFull => Some(ErrorKind::Other),
            Error::ConnectionReset => Some(ErrorKind::ConnectionReset),
            Error::TimedOut => Some(ErrorKind::TimedOut),
            Error::Io(_) => None,
        }
    }

    /// The text of an error, or nothing where its class says it all.
    pub open spec fn spec_message(&self) -> Option<Seq<char>> {
        match self {
            Error::Parse => Some("parsing error"@),
            Error::SocketClosed => Some("socket closed"@),
            Error::InfoNotFound => Some("INFO proto not found"@),
            Error::NoReplySubject => Some("No reply subject available"@),
            Error::BufferFull => Some("the disconnection buffer is full"@),
            Error::ConnectionReset => None,
            Error::TimedOut => None,
            Error::Io(_) => None,
        }
    }

    /// Returns the class of the error; an I/O error keeps its own.
    pub fn kind(&self) -> (kind: Option<ErrorKind>)
        ensures
            kind == self.spec_kind(),
            kind == match self {
                Error::Parse | Error::NoReplySubject => Some(ErrorKind::InvalidInput),
                Error::InfoNotFound | Error::BufferFull => Some(ErrorKind::Other),
                Error::SocketClosed => Some(ErrorKind::UnexpectedEof),
                Error::ConnectionReset => Some(ErrorKind::ConnectionReset),
                Error::TimedOut => Some(ErrorKind::TimedOut),
                Error::Io(_) => None,
            },
    {
        match self {
            Error::Parse => Some(ErrorKind::InvalidInput),
            Error::SocketClosed => Some(ErrorKind::UnexpectedEof),
            Error::InfoNotFound => Some(ErrorKind::Other),
            Error::NoReplySubject => Some(ErrorKind::InvalidInput),
            Error::BufferFull => Some(ErrorKind::Other),
            Error::ConnectionReset => Some(ErrorKind::ConnectionReset),
            Error::TimedOut => Some(ErrorKind::TimedOut),
            Error::Io(_) => None,
        }
    }

    /// Returns the text of the error, where it has one.
    pub fn message(&self) -> (message: Option<&'static str>)
        ensures
            message is Some == self.spec_message() is Some,
            message matches Some(m) ==> Some(m@) == self.spec_message(),
            message is None <==> self is ConnectionReset || self is TimedOut || self is Io,
            self is Parse ==> message->0@ == "parsing error"@,
            self is SocketClosed ==> message->0@ == "socket closed"@,
            self is InfoNotFound ==> message->0@ == "INFO proto not found"@,
            self is NoReplySubject ==> message->0@ == "No reply subject available"@,
            self is BufferFull ==> message->0@ == "the disconnection buffer is full"@,
    {
        match self {
            Error::Parse => Some("parsing error"),
            Error::SocketClosed => Some("socket closed"),
            Error::InfoNotFound => Some("INFO proto not found"),
            Error::NoReplySubject => Some("No reply subject available"),
            Error::BufferFull => Some("the disconnection buffer is full"),
            Error::ConnectionReset => None,
            Error::TimedOut => None,
            Error::Io(_) => None,
        }
    }
}

/// What each error is reported as. Only an error that was carried through has no class
/// of its own, and only that one and those whose class says it all have no text.
pub proof fn law_errors(io: std::io::Error)
    ensures
        Error::Parse.spec_kind() == Some(ErrorKind::InvalidInput),
        Error::SocketClosed.spec_kind() == Some(ErrorKind::UnexpectedEof),
        Error::InfoNotFound.spec_kind() == Some(ErrorKind::Other),
        Error::NoReplySubject.spec_kind() == Some(ErrorKind::InvalidInput),
        Error::BufferFull.spec_kind() == Some(ErrorKind::Other),
        Error::ConnectionReset.spec_kind() == Some(ErrorKind::ConnectionReset),
        Error::TimedOut.spec_kind() == Some(ErrorKind::TimedOut),
        Error::Io(io).spec_kind() is None,
        Error::Parse.spec_message() == Some("parsing error"@),
        Error::SocketClosed.spec_message() == Some("socket closed"@),
        Error::InfoNotFound.spec_message() == Some("INFO proto not found"@),
        Error::NoReplySubject.spec_message() == Some("No reply subject available"@),
        Error::BufferFull.spec_message() == Some("the disconnection buffer is full"@),
        Error::ConnectionReset.spec_message() is None,
        Error::TimedOut.spec_message() is None,
        Error::Io(io).spec_message() is None,
{
}

} // verus!

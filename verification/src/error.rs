use vstd::prelude::*;

verus! {

/// Everything that can terminate the handling of one client connection.
/// One value of this enum is the final outcome of a failed connection;
/// the write of a best-effort status line to the client, where one is
/// owed, is decided by the routing layer.
#[derive(Clone, Copy, Debug, PartialEq, Eq, Structural)]
pub enum Error {
    /// A read, write, bind or resolution failed in the transport layer.
    Io,
    /// The configured connect deadline elapsed before a destination opened.
    Timeout,
    /// The head tokenizer reported the buffered head as invalid.
    HttParse,
    /// The fixed read buffer filled before a head terminator was seen.
    ReadHeaderBufferOverflow,
    /// The client closed the stream before a head terminator was seen,
    /// or the tokenizer found the delimited head incomplete.
    ReadHeaderIncorrectRequest,
    /// Credentials were required and were missing or invalid.
    AuthenticationRequired,
    /// A non-tunnel request carried no Host header.
    NotFoundHeaderHost,
    /// The requested destination had an empty host part.
    IncorrectHost,
    /// Every connection candidate for the destination failed.
    DistConnect,
    /// An unclassified internal failure.
    Unknown,
}

pub open spec fn error_message_spec(e: Error) -> Seq<char> {
    match e {
        Error::Io => "io error"@,
        Error::Timeout => "timeout"@,
        Error::HttParse => "invalid request head"@,
        Error::ReadHeaderBufferOverflow => "read header: buffer overflow"@,
        Error::ReadHeaderIncorrectRequest => "read header: incorrect request"@,
        Error::AuthenticationRequired => "proxy authentication required"@,
        Error::NotFoundHeaderHost => "not found header host"@,
        Error::IncorrectHost => "connect: incorrect host"@,
        Error::DistConnect => "dist connect"@,
        Error::Unknown => "unknown error"@,
    }
}

impl Error {
    /// A short description of the failure, for the caller's logging.
    pub fn message(&self) -> (r: String)
        ensures
            r@ == error_message_spec(*self),
    {
        match self {
            Error::Io => "io error".to_owned(),
            Error::Timeout => "timeout".to_owned(),
            Error::HttParse => "invalid request head".to_owned(),
            Error::ReadHeaderBufferOverflow => "read header: buffer overflow".to_owned(),
            Error::ReadHeaderIncorrectRequest => "read header: incorrect request".to_owned(),
            Error::AuthenticationRequired => "proxy authentication required".to_owned(),
            Error::NotFoundHeaderHost => "not found header host".to_owned(),
            Error::IncorrectHost => "connect: incorrect host".to_owned(),
            Error::DistConnect => "dist connect".to_owned(),
            Error::Unknown => "unknown error".to_owned(),
        }
    }
}

} // verus!

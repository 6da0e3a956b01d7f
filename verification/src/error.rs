//! Error taxonomy: line-codec failures, message-parse failures, and the
//! protocol-level failures that terminate a session.

use crate::response::Response;
use vstd::prelude::*;

verus! {

/// `std::io::Error`, carried opaquely inside error values; vstd gives it
/// no specification, so it is declared here.
#[verifier::external_type_specification]
#[verifier::external_body]
pub struct ExIoError(std::io::Error);

/// Failures of the byte-level line codec.
#[derive(Debug)]
pub enum LineCodecError {
    /// The accumulated buffer outgrew the configured maximum line length
    /// without a terminator, or an encoded line would not fit in it.
    MaxLineLengthExceeded,
    /// An error of the underlying stream.
    Io(std::io::Error),
    /// The WHATWG encoding label given to the codec is not recognised.
    InvalidEncoding(String),
}

impl From<std::io::Error> for LineCodecError {
    fn from(e: std::io::Error) -> (r: LineCodecError) {
        LineCodecError::Io(e)
    }
}

impl vstd::std_specs::convert::FromSpecImpl<std::io::Error> for LineCodecError {
    open spec fn obeys_from_spec() -> bool {
        true
    }

    open spec fn from_spec(v: std::io::Error) -> Self {
        LineCodecError::Io(v)
    }
}

/// Failures of turning a decoded line into a typed message.
#[derive(Debug)]
pub enum MessageParseError {
    /// The line was empty.
    EmptyMessage,
    /// The line began with a prefix introducer but held no command.
    InvalidCommand,
    /// A known verb came with a parameter count outside its arity.
    InvalidArgumentCount,
    /// A serialized message did not carry the required CRLF terminator.
    MissingCRLF,
    /// A numeric reply that should be sent back to the peer.
    ErrResponse(Response),
    /// The line codec below failed.
    LineError { string: String, cause: LineCodecError },
}

impl From<Response> for MessageParseError {
    fn from(value: Response) -> (r: MessageParseError) {
        MessageParseError::ErrResponse(value)
    }
}

impl vstd::std_specs::convert::FromSpecImpl<Response> for MessageParseError {
    open spec fn obeys_from_spec() -> bool {
        true
    }

    open spec fn from_spec(v: Response) -> Self {
        MessageParseError::ErrResponse(v)
    }
}

/// Failures that are fatal to a session.
#[derive(Debug)]
pub enum ProtocolError {
    /// The outbound queue is closed.
    SendError,
    /// An error of the underlying stream.
    Io(std::io::Error),
    /// No PONG arrived within the deadline after an injected PING.
    PingTimeout,
    /// The server could not complete a registration.
    ServerError,
    /// A line could not be decoded or parsed as a message.
    InvalidMessage { string: String, cause: MessageParseError },
}

impl From<std::io::Error> for ProtocolError {
    fn from(e: std::io::Error) -> (r: ProtocolError) {
        ProtocolError::Io(e)
    }
}

impl vstd::std_specs::convert::FromSpecImpl<std::io::Error> for ProtocolError {
    open spec fn obeys_from_spec() -> bool {
        true
    }

    open spec fn from_spec(v: std::io::Error) -> Self {
        ProtocolError::Io(v)
    }
}

} // verus!

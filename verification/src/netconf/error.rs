//! The errors that an operation can end in.

use crate::netconf::xml::{DeviceError, RPCError, RPCReplyCommand, ReplyElement, Text};
use vstd::prelude::*;

verus! {

/// Why no document could be read from the byte stream.
#[derive(Debug, Clone, Copy, PartialEq, Eq, Structural)]
pub enum FramingError {
    /// The stream closed before a delimiter appeared.
    StreamClosed,
    /// The bytes before the delimiter are not valid UTF-8.
    InvalidUtf8,
}

/// Why an operation failed.
#[derive(Debug, Clone, PartialEq, Eq)]
pub enum NETCONFError {
    /// The channel below the engine failed; the text is the caller's account of it.
    Transport(String),
    /// No document could be read from the byte stream.
    Framing(FramingError),
    /// A document could not be encoded or decoded; the text is the caller's account of it.
    Codec(String),
    /// The reply holds an element that the operation does not accept.
    UnexpectedCommand(RPCReplyCommand),
    /// The reply ended without the element that marks success.
    MissingOk,
    /// The device reported a condition that is no warning.
    DeviceError(RPCError),
}

/// The result of an operation.
pub type NETCONFResult<T> = Result<T, NETCONFError>;

/// Model of a failed operation.
pub enum Failure {
    Transport(Text),
    Framing(FramingError),
    Codec(Text),
    UnexpectedReply(ReplyElement),
    MissingResult,
    Device(DeviceError),
}

impl View for NETCONFError {
    type V = Failure;

    open spec fn view(&self) -> Failure {
        match *self {
            NETCONFError::Transport(text) => Failure::Transport(text@),
            NETCONFError::Framing(error) => Failure::Framing(error),
            NETCONFError::Codec(text) => Failure::Codec(text@),
            NETCONFError::UnexpectedCommand(element) => Failure::UnexpectedReply(element@),
            NETCONFError::MissingOk => Failure::MissingResult,
            NETCONFError::DeviceError(error) => Failure::Device(error@),
        }
    }
}

/// Model of the result of an operation that returns text.
pub open spec fn text_outcome(result: NETCONFResult<String>) -> Result<Text, Failure> {
    match result {
        Ok(text) => Ok(text@),
        Err(error) => Err(error@),
    }
}

/// Model of the result of an operation that returns nothing.
pub open spec fn unit_outcome(result: NETCONFResult<()>) -> Result<(), Failure> {
    match result {
        Ok(()) => Ok(()),
        Err(error) => Err(error@),
    }
}

} // verus!

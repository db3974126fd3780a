//! What can go wrong between a typed command and its answer.

use vstd::prelude::*;

verus! {

/// A command that cannot be put on the wire. Raised before a byte is
/// written.
#[derive(Clone, Copy, Debug, PartialEq, Eq, Structural)]
pub enum EncodingError {
    /// A text is longer than the field that should hold it.
    CapacityExceeded,
    /// A name stands for no value of the enumeration it is meant for.
    Unmappable,
    /// The prefix holds a line break.
    InvalidPrefix,
    /// The argument at `position` holds a byte that cannot be written under
    /// the command's quoting rule.
    Unencodable { position: usize },
    /// The line would be longer than the module accepts.
    LineTooLong,
}

/// A byte stream that does not split into lines, or a line for the pending
/// exchange that does not read as one.
#[derive(Clone, Copy, Debug, PartialEq, Eq, Structural)]
pub enum FramingError {
    /// A line outgrew the ingestion buffer.
    Overflow,
    /// A line feed without the carriage return before it, or an error line
    /// without its code and description.
    MalformedTerminator,
    /// A data line whose fields do not fit the response that the command
    /// declares.
    MalformedData,
}

/// Why a line is not what the pending exchange waits for.
#[derive(Clone, Copy, Debug, PartialEq, Eq, Structural)]
pub enum DecodeError {
    /// Neither a terminator nor a data line of the command.
    Unrecognized,
    /// An error line without its code and description.
    MalformedTerminator,
    /// A data line of the command with the wrong number or kind of fields.
    MalformedData,
}

/// How an exchange fails.
#[derive(Debug, PartialEq, Eq)]
pub enum Error {
    /// The command cannot be encoded; nothing was sent.
    Encoding(EncodingError),
    /// The answer could not be framed or read.
    Framing(FramingError),
    /// The module answered with an error line.
    Module { code: u32, description: Vec<u8> },
    /// No terminator line came before the deadline.
    Timeout,
    /// Another exchange is still in flight.
    NotReady,
    /// The transport failed underneath.
    Transport,
}

/// `Error` with its description as a sequence.
pub enum ErrorModel {
    Encoding(EncodingError),
    Framing(FramingError),
    Module { code: u32, description: Seq<u8> },
    Timeout,
    NotReady,
    Transport,
}

impl Clone for Error {
    fn clone(&self) -> (out: Self)
        ensures
            out@ == self@,
    {
        match self {
            Error::Encoding(e) => Error::Encoding(*e),
            Error::Framing(e) => Error::Framing(*e),
            Error::Module { code, description } => Error::Module {
                code: *code,
                description: description.clone(),
            },
            Error::Timeout => Error::Timeout,
            Error::NotReady => Error::NotReady,
            Error::Transport => Error::Transport,
        }
    }
}

impl View for Error {
    type V = ErrorModel;

    open spec fn view(&self) -> ErrorModel {
        match *self {
            Error::Encoding(e) => ErrorModel::Encoding(e),
            Error::Framing(e) => ErrorModel::Framing(e),
            Error::Module { code, description } => ErrorModel::Module {
                code,
                description: description@,
            },
            Error::Timeout => ErrorModel::Timeout,
            Error::NotReady => ErrorModel::NotReady,
            Error::Transport => ErrorModel::Transport,
        }
    }
}

} // verus!

use vstd::prelude::*;

verus! {

/// The text field of a command that failed validation.
#[derive(Debug, Clone, Copy, PartialEq, Eq)]
pub enum CommandField {
    Id,
    User,
    Message,
    PropertyName,
}

/// Typed failures of decoding, validation and session sequencing.
///
/// Every failure in the core is recoverable per message: the connection
/// stays open and the caller decides how to react.
#[derive(Debug, PartialEq, Eq)]
pub enum ProtocolError {
    /// The buffer is shorter than the fixed layout of the declared command.
    MalformedMessage,
    /// A text field has an invalid value; carries the field and its raw bytes.
    ValidationError(CommandField, Vec<u8>),
    /// The operation code of a PUTOBJ command is not a known operation.
    UnknownOperation,
    /// The buffer ended before the declared number of properties was read.
    TruncatedMessage,
    /// The identifier field names no known command.
    UnrecognizedCommand,
    /// A HELLO arrived on a session that is already active.
    SessionAlreadyOpen,
    /// A BYE arrived on a session that was never opened.
    SessionNotOpen,
    /// The command was decoded but has no accepted behaviour in the core.
    NotImplemented,
    /// A narrowing numeric cast would not fit the target type.
    NumericOverflow,
}

} // verus!

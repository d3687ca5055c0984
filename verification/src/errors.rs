//! The protocol's error taxonomy. Every error is fatal to the session:
//! malformed input, an out-of-sequence command, or a command routed to a
//! capability the backend does not have. The driver prints the message and
//! terminates; nothing is retried.
use vstd::prelude::*;

verus! {

/// The operation a command asked for.
#[derive(Clone, Copy, PartialEq, Eq, Structural, Debug)]
pub enum OpKind {
    List,
    ListForPush,
    Fetch,
    Push,
}

/// A fatal protocol error.
#[derive(Clone, Copy, PartialEq, Eq, Structural, Debug)]
pub enum ProtoError {
    /// A line could not be read where the protocol still expected one.
    UnexpectedEnd,
    /// The first line of the session was not `capabilities`.
    BadGreeting,
    /// A `fetch` line with no hash token.
    MissingHash,
    /// A `fetch` line with no name token.
    MissingName,
    /// A `fetch` line with tokens beyond hash and name.
    ExtraFetchArg,
    /// A hash token that is neither `@<link>` nor forty hex characters.
    BadHash,
    /// A `fetch` token too short to derive an object-store path from.
    ShortFetchToken,
    /// A `push` line with no ref-spec token.
    MissingRefSpec,
    /// A ref-spec without a `:` separating source from destination.
    MissingDst,
    /// A ref-spec with more than one `:`.
    ExtraRefSpecPart,
    /// A non-blank line inside a batch that does not continue the batch.
    UnexpectedCommand,
    /// A command routed to a capability the backend does not have.
    Unsupported(OpKind),
}

impl ProtoError {
    /// The message the driver reports when it terminates on this error.
    pub fn message(&self) -> String {
        match self {
            ProtoError::UnexpectedEnd => String::from_str("unexpected end of input"),
            ProtoError::BadGreeting => String::from_str("unexpected input"),
            ProtoError::MissingHash => String::from_str("expected sha1 hash"),
            ProtoError::MissingName => String::from_str("expected name"),
            ProtoError::ExtraFetchArg => String::from_str("unexpected input"),
            ProtoError::BadHash => String::from_str("invalid hash"),
            ProtoError::ShortFetchToken => String::from_str("hash token too short"),
            ProtoError::MissingRefSpec => String::from_str("expected push args"),
            ProtoError::MissingDst => String::from_str("expected dst"),
            ProtoError::ExtraRefSpecPart => String::from_str("unexpected arg"),
            ProtoError::UnexpectedCommand => String::from_str("unexpected command"),
            ProtoError::Unsupported(OpKind::List) => String::from_str(
                "operation list not supported",
            ),
            ProtoError::Unsupported(OpKind::ListForPush) => String::from_str(
                "operation list for-push not supported",
            ),
            ProtoError::Unsupported(OpKind::Fetch) => String::from_str(
                "operation fetch not supported",
            ),
            ProtoError::Unsupported(OpKind::Push) => String::from_str(
                "operation push not supported",
            ),
        }
    }
}

} // verus!

//! Why a transfer ended without success.

use vstd::prelude::*;

verus! {

/// The ways in which the peer can break the protocol.
#[derive(Clone, Copy, Debug, PartialEq, Eq)]
pub enum Violation {
    /// A chunk named another transfer than the one in progress.
    ChunkIdMismatch,
    /// A notification arrived that the current stage of the transfer does
    /// not admit.
    UnexpectedMessage,
    /// An offset did not continue where the previous chunk ended.
    OutOfOrder,
    /// A chunk was too short to hold its header, or its length disagreed
    /// with the header.
    MalformedChunk,
    /// A chunk reached past the announced end of the payload.
    ChunkOverrun,
    /// The peer acknowledged the whole payload before all of it was sent.
    PrematureFinish,
    /// The negotiated frame size cannot hold a chunk header.
    MtuTooSmall,
}

impl Violation {
    /// A short description for logs and messages.
    pub fn message(self) -> (r: &'static str)
        ensures
            r@ == match self {
                Violation::ChunkIdMismatch => "chunk id not match"@,
                Violation::UnexpectedMessage => "unexpected message"@,
                Violation::OutOfOrder => "offset out of order"@,
                Violation::MalformedChunk => "malformed chunk"@,
                Violation::ChunkOverrun => "chunk past the end"@,
                Violation::PrematureFinish => "finished before the end"@,
                Violation::MtuTooSmall => "mtu too small"@,
            },
    {
        match self {
            Violation::ChunkIdMismatch => "chunk id not match",
            Violation::UnexpectedMessage => "unexpected message",
            Violation::OutOfOrder => "offset out of order",
            Violation::MalformedChunk => "malformed chunk",
            Violation::ChunkOverrun => "chunk past the end",
            Violation::PrematureFinish => "finished before the end",
            Violation::MtuTooSmall => "mtu too small",
        }
    }
}

/// The kinds of error a transfer can end with. Failures of the radio
/// itself are not among them: the driver of a transfer meets those and
/// passes them on as they are.
#[derive(Clone, Copy, Debug, PartialEq, Eq)]
pub enum ErrorKind {
    /// The exchange with the peer went wrong: the peer broke the protocol
    /// or reported an error of its own.
    Protocol,
    /// The notification stream ended before the transfer was resolved.
    Exhaustion,
    /// The payload and the value it stands for do not agree.
    Serialization,
    /// The payload is longer than a transfer can announce.
    Oversize,
}

/// The error of a transfer. A failed transfer is never resumed: the caller
/// starts over or gives up.
#[derive(Debug, PartialEq, Eq)]
pub enum TransferError {
    /// The peer reported an error of its own; the bytes are its message.
    Peer(Vec<u8>),
    /// The peer broke the protocol.
    Protocol(Violation),
    /// The notification stream ended before the transfer was resolved.
    Exhausted,
    /// The payload is not the text of a value, or the value has no text;
    /// the string says why.
    Serialization(String),
    /// The payload is longer than a transfer can announce.
    Oversize,
}

/// The mathematical value of a [`TransferError`].
pub enum Fault {
    Peer(Seq<u8>),
    Protocol(Violation),
    Exhausted,
    Serialization(Seq<char>),
    Oversize,
}

impl Fault {
    /// The kind of this error.
    pub open spec fn kind(self) -> ErrorKind {
        match self {
            Fault::Peer(_) => ErrorKind::Protocol,
            Fault::Protocol(_) => ErrorKind::Protocol,
            Fault::Exhausted => ErrorKind::Exhaustion,
            Fault::Serialization(_) => ErrorKind::Serialization,
            Fault::Oversize => ErrorKind::Oversize,
        }
    }
}

impl TransferError {
    /// The kind of this error.
    pub fn kind(&self) -> (r: ErrorKind)
        ensures
            r == self@.kind(),
    {
        match self {
            TransferError::Peer(_) => ErrorKind::Protocol,
            TransferError::Protocol(_) => ErrorKind::Protocol,
            TransferError::Exhausted => ErrorKind::Exhaustion,
            TransferError::Serialization(_) => ErrorKind::Serialization,
            TransferError::Oversize => ErrorKind::Oversize,
        }
    }
}

impl View for TransferError {
    type V = Fault;

    open spec fn view(&self) -> Fault {
        match *self {
            TransferError::Peer(message) => Fault::Peer(message@),
            TransferError::Protocol(violation) => Fault::Protocol(violation),
            TransferError::Exhausted => Fault::Exhausted,
            TransferError::Serialization(reason) => Fault::Serialization(reason@),
            TransferError::Oversize => Fault::Oversize,
        }
    }
}

} // verus!

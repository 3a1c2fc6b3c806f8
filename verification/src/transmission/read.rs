//! Receiving a payload: the initiator asks for it, learns its length from
//! the peripheral, and then reads chunk after chunk, acknowledging each,
//! until the announced length is reached.

use crate::error::{Fault, TransferError, Violation};
use crate::transmission::meta::{ChunkMetaData, MetaData, CHUNK_META_LEN};
use crate::transmission::msg::{notice_of, Notice, NotifyMessage, ReadMessage};
use crate::transmission::DataFromBytes;
use crate::wire::put_bytes;
use vstd::prelude::*;

verus! {

/// A receive that has asked for the payload and awaits its announcement.
#[derive(Clone, Copy, Debug, PartialEq, Eq)]
pub struct ReadRequest {
    /// The endpoint whose notifications belong to this transfer.
    pub endpoint: u128,
}

/// The mathematical state of a receive whose payload has been announced.
pub struct ReadState {
    /// The identifier the peripheral announced.
    pub id: u32,
    /// The announced length of the payload.
    pub total_size: u32,
    /// The payload as far as it has arrived.
    pub buffer: Seq<u8>,
}

/// What a receive asks of its driver after a notification.
pub enum ReadyAction {
    /// Await the next notification.
    Wait,
    /// The payload is announced: read the endpoint for its first chunk.
    Read(ReadState),
    /// The receive has failed.
    Abort(Fault),
}

/// What a receive asks of its driver after a chunk.
pub enum ReadAction {
    /// Write the frame, with response, then read the endpoint for the
    /// next chunk.
    More(ReadState, Seq<u8>),
    /// The payload is complete: write the frame, with response, and hand
    /// the payload to the caller.
    Done(Seq<u8>, Seq<u8>),
    /// The receive has failed, and what had arrived is dropped.
    Abort(Fault),
}

/// The frame that asks the peripheral for its payload.
pub open spec fn request_frame() -> Seq<u8> {
    ReadMessage::encoding(ReadMessage::StartRead)
}

/// The frame that acknowledges the payload up to `next_start`.
pub open spec fn receive_frame(next_start: u32) -> Seq<u8> {
    ReadMessage::encoding(ReadMessage::ReadReceive { next_start })
}

/// The frame that acknowledges the last chunk.
pub open spec fn finish_frame() -> Seq<u8> {
    ReadMessage::encoding(ReadMessage::ReadFinish)
}

impl ReadRequest {
    /// The answer to a message from the peripheral while the announcement
    /// is awaited: the announcement opens the transfer, an error ends it,
    /// everything else passes by.
    pub open spec fn step(msg: Notice) -> ReadyAction {
        match msg {
            Notice::ReadReady(meta) => ReadyAction::Read(ReadState::announced(meta)),
            Notice::Error(message) => ReadyAction::Abort(Fault::Peer(message)),
            _ => ReadyAction::Wait,
        }
    }

    /// The answer to a notification of the endpoint `uuid`: notifications
    /// of other endpoints pass by.
    pub open spec fn notified(self, uuid: u128, value: Seq<u8>) -> ReadyAction {
        if uuid == self.endpoint {
            ReadRequest::step(notice_of(value))
        } else {
            ReadyAction::Wait
        }
    }
}

impl ReadState {
    /// The state right after the announcement: nothing has arrived.
    pub open spec fn announced(meta: MetaData) -> ReadState {
        ReadState { id: meta.id, total_size: meta.total_size, buffer: Seq::empty() }
    }

    /// What holds of every state a receive passes through.
    pub open spec fn wf(self) -> bool {
        self.buffer.len() <= self.total_size
    }

    /// The receive's answer to what a read of the endpoint returned.
    ///
    /// The bytes have to be a chunk header and exactly the bytes it
    /// counts, of this transfer, continuing where the buffer ends and not
    /// reaching past the announced length.
    pub open spec fn step(self, data: Seq<u8>) -> ReadAction {
        let meta = ChunkMetaData::at(data, 0);
        let payload = data.skip(CHUNK_META_LEN as int);
        if data.len() < CHUNK_META_LEN {
            ReadAction::Abort(Fault::Protocol(Violation::MalformedChunk))
        } else if meta.id != self.id {
            ReadAction::Abort(Fault::Protocol(Violation::ChunkIdMismatch))
        } else if meta.start != self.buffer.len() {
            ReadAction::Abort(Fault::Protocol(Violation::OutOfOrder))
        } else if meta.chunk_size != payload.len() {
            ReadAction::Abort(Fault::Protocol(Violation::MalformedChunk))
        } else if meta.start + meta.chunk_size > self.total_size {
            ReadAction::Abort(Fault::Protocol(Violation::ChunkOverrun))
        } else if meta.start + meta.chunk_size < self.total_size {
            ReadAction::More(
                ReadState { buffer: self.buffer + payload, ..self },
                receive_frame((meta.start + meta.chunk_size) as u32),
            )
        } else {
            ReadAction::Done(self.buffer + payload, finish_frame())
        }
    }
}

/// A receive in progress: the announcement and the reassembly buffer.
#[derive(Debug)]
pub struct ReadTransfer {
    id: u32,
    total_size: u32,
    buffer: Vec<u8>,
}

/// What the driver of a receive has to do after a notification.
#[derive(Debug)]
pub enum ReadyOutcome {
    /// Await the next notification.
    Wait(ReadRequest),
    /// The payload is announced: read the endpoint for its first chunk.
    Read(ReadTransfer),
    /// The receive has failed.
    Abort(TransferError),
}

/// What the driver of a receive has to do after a chunk. The transfer is
/// handed back as long as it goes on, and is gone once it has ended.
#[derive(Debug)]
pub enum ReadOutcome {
    /// Write the frame, with response, then read the endpoint for the
    /// next chunk.
    More(ReadTransfer, Vec<u8>),
    /// The payload, and the frame to write, with response, before handing
    /// the payload to the caller.
    Done(Vec<u8>, Vec<u8>),
    /// The receive has failed, and what had arrived is dropped.
    Abort(TransferError),
}

impl View for ReadRequest {
    type V = ReadRequest;

    open spec fn view(&self) -> ReadRequest {
        *self
    }
}

impl View for ReadTransfer {
    type V = ReadState;

    closed spec fn view(&self) -> ReadState {
        ReadState { id: self.id, total_size: self.total_size, buffer: self.buffer@ }
    }
}

impl View for ReadyOutcome {
    type V = ReadyAction;

    open spec fn view(&self) -> ReadyAction {
        match *self {
            ReadyOutcome::Wait(_) => ReadyAction::Wait,
            ReadyOutcome::Read(transfer) => ReadyAction::Read(transfer@),
            ReadyOutcome::Abort(error) => ReadyAction::Abort(error@),
        }
    }
}

impl View for ReadOutcome {
    type V = ReadAction;

    open spec fn view(&self) -> ReadAction {
        match *self {
            ReadOutcome::More(transfer, frame) => ReadAction::More(transfer@, frame@),
            ReadOutcome::Done(payload, frame) => ReadAction::Done(payload@, frame@),
            ReadOutcome::Abort(error) => ReadAction::Abort(error@),
        }
    }
}

impl ReadRequest {
    /// Opens a receive. Returns the request and the frame that asks for
    /// the payload, which the driver writes after subscribing to the
    /// endpoint.
    pub fn start(endpoint: u128) -> (r: (ReadRequest, Vec<u8>))
        ensures
            r.0.endpoint == endpoint,
            r.1@ == request_frame(),
    {
        (ReadRequest { endpoint }, ReadMessage::StartRead.bytes())
    }

    /// Answers a message from the peripheral.
    pub fn on_message(self, msg: NotifyMessage) -> (r: ReadyOutcome)
        ensures
            r@ == ReadRequest::step(msg@),
            r matches ReadyOutcome::Wait(request) ==> request == self,
    {
        match msg {
            NotifyMessage::ReadReady(meta) => ReadyOutcome::Read(
                ReadTransfer { id: meta.id, total_size: meta.total_size, buffer: Vec::new() },
            ),
            NotifyMessage::Error(message) => ReadyOutcome::Abort(TransferError::Peer(message)),
            _ => ReadyOutcome::Wait(self),
        }
    }

    /// Answers a notification: `uuid` is the endpoint it came from, `value`
    /// its bytes.
    pub fn on_notification(self, uuid: u128, value: &[u8]) -> (r: ReadyOutcome)
        ensures
            r@ == self.notified(uuid, value@),
            r matches ReadyOutcome::Wait(request) ==> request == self,
    {
        if uuid == self.endpoint {
            let (msg, _) = NotifyMessage::from_data(value);
            self.on_message(msg)
        } else {
            ReadyOutcome::Wait(self)
        }
    }

    /// The notification stream has ended before the peripheral announced
    /// a payload.
    pub fn on_closed(self) -> (r: TransferError)
        ensures
            r@ == Fault::Exhausted,
    {
        TransferError::Exhausted
    }
}

impl ReadTransfer {
    #[verifier::type_invariant]
    spec fn inv(self) -> bool {
        self@.wf()
    }

    /// The identifier the peripheral announced.
    pub fn id(&self) -> (r: u32)
        ensures
            r == self@.id,
    {
        self.id
    }

    /// The announced length of the payload.
    pub fn total_size(&self) -> (r: u32)
        ensures
            r == self@.total_size,
    {
        self.total_size
    }

    /// How many bytes of the payload have arrived.
    pub fn received(&self) -> (r: u32)
        ensures
            r == self@.buffer.len(),
    {
        proof {
            use_type_invariant(self);
        }
        self.buffer.len() as u32
    }

    /// Answers what a read of the endpoint returned.
    pub fn on_chunk(self, data: &[u8]) -> (r: ReadOutcome)
        ensures
            self@.wf(),
            r@ == self@.step(data@),
    {
        proof {
            use_type_invariant(&self);
        }
        if data.len() < CHUNK_META_LEN {
            return ReadOutcome::Abort(TransferError::Protocol(Violation::MalformedChunk));
        }
        let (meta, payload) = ChunkMetaData::from_data(data);
        if meta.id != self.id {
            return ReadOutcome::Abort(TransferError::Protocol(Violation::ChunkIdMismatch));
        }
        if meta.start as usize != self.buffer.len() {
            return ReadOutcome::Abort(TransferError::Protocol(Violation::OutOfOrder));
        }
        if meta.chunk_size as usize != payload.len() {
            return ReadOutcome::Abort(TransferError::Protocol(Violation::MalformedChunk));
        }
        let next: u64 = meta.start as u64 + meta.chunk_size as u64;
        if next > self.total_size as u64 {
            return ReadOutcome::Abort(TransferError::Protocol(Violation::ChunkOverrun));
        }
        let mut buffer = self.buffer;
        put_bytes(&mut buffer, payload);
        if next < self.total_size as u64 {
            let frame = ReadMessage::ReadReceive { next_start: next as u32 }.bytes();
            ReadOutcome::More(
                ReadTransfer { id: self.id, total_size: self.total_size, buffer },
                frame,
            )
        } else {
            ReadOutcome::Done(buffer, ReadMessage::ReadFinish.bytes())
        }
    }
}

} // verus!
